use keysounds::binding::{KeyBinding, KeybindingTable, SoundId, SoundRef};
use keysounds::dispatch::handle_event;
use keysounds::events::{EventKind, InputEvent, ModifierState};
use keysounds::keys::KeyId;
use keysounds::standard::standard_table;

fn press(k: KeyId) -> InputEvent {
    InputEvent { kind: EventKind::KeyPress(k), has_name: true }
}

fn release(k: KeyId) -> InputEvent {
    InputEvent { kind: EventKind::KeyRelease(k), has_name: false }
}

fn bind(cmd: bool, shift: bool, ctrl: bool, key: KeyId, s: SoundId) -> KeyBinding {
    KeyBinding { cmd, shift, ctrl, key, sound: SoundRef::Builtin(s) }
}

#[test]
fn modifier_tracking_merges_left_and_right() {
    let mut m = ModifierState::new();
    m.update(EventKind::KeyPress(KeyId::MetaLeft));
    assert!(m.cmd);
    // releasing the other variant still clears the flag
    m.update(EventKind::KeyRelease(KeyId::MetaRight));
    assert!(!m.cmd);
    m.update(EventKind::KeyPress(KeyId::ShiftRight));
    m.update(EventKind::KeyPress(KeyId::ControlLeft));
    assert!(m.shift && m.ctrl && !m.cmd);
}

#[test]
fn earlier_registered_binding_wins() {
    // a two-modifier binding on c, registered before a single-modifier
    // binding on the same key
    let mut t = KeybindingTable::new();
    t.push(bind(true, false, true, KeyId::Letter(b'c'), SoundId::Wrong));
    t.push(bind(true, false, false, KeyId::Letter(b'c'), SoundId::BallThrow));

    let mut m = ModifierState::new();
    m.update(EventKind::KeyPress(KeyId::MetaLeft));
    m.update(EventKind::KeyPress(KeyId::ControlLeft));
    let fired = handle_event(&t, &mut m, &press(KeyId::Letter(b'c')));
    assert_eq!(fired, Some(0));
}

#[test]
fn exact_match_only() {
    let mut t = KeybindingTable::new();
    t.push(bind(true, false, true, KeyId::Letter(b'c'), SoundId::Wrong));
    t.push(bind(true, false, false, KeyId::Letter(b'c'), SoundId::BallThrow));

    // only cmd held: the single-modifier binding fires
    let mut m = ModifierState::new();
    m.update(EventKind::KeyPress(KeyId::MetaRight));
    assert_eq!(handle_event(&t, &mut m, &press(KeyId::Letter(b'c'))), Some(1));

    // cmd+shift held: neither binding's set equals the held set
    m.update(EventKind::KeyPress(KeyId::ShiftLeft));
    assert_eq!(handle_event(&t, &mut m, &press(KeyId::Letter(b'c'))), None);
}

#[test]
fn unmodified_binding_needs_empty_modifier_set() {
    let mut t = KeybindingTable::new();
    t.push(bind(false, false, false, KeyId::Escape, SoundId::Fly));
    let mut m = ModifierState::new();
    m.update(EventKind::KeyPress(KeyId::MetaLeft));
    // escape with cmd held must not fire the bare-escape binding
    assert_eq!(handle_event(&t, &mut m, &press(KeyId::Escape)), None);
    m.update(EventKind::KeyRelease(KeyId::MetaRight));
    assert_eq!(handle_event(&t, &mut m, &press(KeyId::Escape)), Some(0));
}

#[test]
fn no_match_is_a_no_op_twice() {
    let t = standard_table();
    let mut m = ModifierState::new();
    let e = press(KeyId::Letter(b'q'));
    let first = handle_event(&t, &mut m, &e);
    let state_after_first = m;
    let second = handle_event(&t, &mut m, &e);
    assert_eq!(first, None);
    assert_eq!(second, None);
    assert_eq!(m, state_after_first);
}

#[test]
fn releases_and_buttons_never_fire() {
    let t = standard_table();
    let mut m = ModifierState::new();
    assert_eq!(handle_event(&t, &mut m, &release(KeyId::Escape)), None);
    let button = InputEvent { kind: EventKind::ButtonPress, has_name: false };
    assert_eq!(handle_event(&t, &mut m, &button), None);
}

#[test]
fn standard_table_layout() {
    let t = standard_table();
    assert_eq!(t.len(), 12);

    // cmd+w opens the standard table's first single-modifier binding
    let mut m = ModifierState::new();
    m.update(EventKind::KeyPress(KeyId::MetaLeft));
    let fired = handle_event(&t, &mut m, &press(KeyId::Letter(b'w'))).expect("cmd+w is bound");
    assert_eq!(t.get(fired).sound, SoundRef::Builtin(SoundId::DoorEnter));

    // cmd+shift+k triggers the two-modifier binding, not cmd+k
    m.update(EventKind::KeyPress(KeyId::ShiftLeft));
    let fired = handle_event(&t, &mut m, &press(KeyId::Letter(b'k'))).expect("cmd+shift+k is bound");
    assert_eq!(fired, 0);
    assert_eq!(t.get(fired).sound, SoundRef::Builtin(SoundId::Poison));

    // escape alone flies
    let mut idle = ModifierState::new();
    let fired = handle_event(&t, &mut idle, &press(KeyId::Escape)).expect("escape is bound");
    assert_eq!(t.get(fired).sound, SoundRef::Builtin(SoundId::Fly));
}

#[test]
fn pressed_modifier_updates_state_before_dispatch() {
    let mut t = KeybindingTable::new();
    t.push(bind(true, false, false, KeyId::MetaLeft, SoundId::Save));
    let mut m = ModifierState::new();
    // the press of MetaLeft itself is dispatched with cmd already set
    assert_eq!(handle_event(&t, &mut m, &press(KeyId::MetaLeft)), Some(0));
}
