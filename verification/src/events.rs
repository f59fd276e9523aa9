//! Input events as the library sees them, and the held-modifier tracker.

use vstd::prelude::*;
use crate::keys::KeyId;

verus! {

/// The transition an input event reports.
#[derive(Clone, Copy, PartialEq, Eq, Structural, Debug)]
pub enum EventKind {
    KeyPress(KeyId),
    KeyRelease(KeyId),
    ButtonPress,
    ButtonRelease,
    Other,
}

/// One event from the input hook: the transition, plus whether the
/// event carried a name/text payload. The payload's content is never
/// inspected, only its presence: any named event counts as activity
/// for the ambient engine.
#[derive(Clone, Copy, PartialEq, Eq, Structural, Debug)]
pub struct InputEvent {
    pub kind: EventKind,
    pub has_name: bool,
}

/// Whether an event counts as activity for the ambient engine: any
/// event carrying a name/text payload, whatever its kind. This is
/// deliberately looser than the dispatcher's exact-match rule.
pub fn is_activity_trigger(e: &InputEvent) -> (r: bool)
    ensures
        r == e.has_name,
{
    e.has_name
}

/// Which keys are currently held, reduced to the three tracked
/// modifiers. Left and right variants are merged: pressing either
/// sets the flag, releasing either clears it.
#[derive(Clone, Copy, PartialEq, Eq, Structural, Debug)]
pub struct ModifierState {
    pub cmd: bool,
    pub shift: bool,
    pub ctrl: bool,
}

/// Whether `k` is a variant of the primary (command) modifier.
pub open spec fn is_cmd_key(k: KeyId) -> bool {
    k == KeyId::MetaLeft || k == KeyId::MetaRight
}

/// Whether `k` is a variant of the secondary (shift) modifier.
pub open spec fn is_shift_key(k: KeyId) -> bool {
    k == KeyId::ShiftLeft || k == KeyId::ShiftRight
}

/// Whether `k` is a variant of the tertiary (control) modifier.
pub open spec fn is_ctrl_key(k: KeyId) -> bool {
    k == KeyId::ControlLeft || k == KeyId::ControlRight
}

/// The modifier state after one event: a press of either variant of a
/// modifier sets its flag, a release of either variant clears it, and
/// every other event leaves the state unchanged.
pub open spec fn after_event(m: ModifierState, e: EventKind) -> ModifierState {
    match e {
        EventKind::KeyPress(k) => ModifierState {
            cmd: if is_cmd_key(k) { true } else { m.cmd },
            shift: if is_shift_key(k) { true } else { m.shift },
            ctrl: if is_ctrl_key(k) { true } else { m.ctrl },
        },
        EventKind::KeyRelease(k) => ModifierState {
            cmd: if is_cmd_key(k) { false } else { m.cmd },
            shift: if is_shift_key(k) { false } else { m.shift },
            ctrl: if is_ctrl_key(k) { false } else { m.ctrl },
        },
        _ => m,
    }
}

impl ModifierState {
    /// The state at startup: nothing held.
    pub fn new() -> (r: ModifierState)
        ensures
            r == (ModifierState { cmd: false, shift: false, ctrl: false }),
    {
        ModifierState { cmd: false, shift: false, ctrl: false }
    }

    /// Applies one event to the tracked state.
    pub fn update(&mut self, e: EventKind)
        ensures
            *final(self) == after_event(*old(self), e),
    {
        match e {
            EventKind::KeyPress(k) => {
                if matches!(k, KeyId::MetaLeft | KeyId::MetaRight) {
                    self.cmd = true;
                }
                if matches!(k, KeyId::ShiftLeft | KeyId::ShiftRight) {
                    self.shift = true;
                }
                if matches!(k, KeyId::ControlLeft | KeyId::ControlRight) {
                    self.ctrl = true;
                }
            }
            EventKind::KeyRelease(k) => {
                if matches!(k, KeyId::MetaLeft | KeyId::MetaRight) {
                    self.cmd = false;
                }
                if matches!(k, KeyId::ShiftLeft | KeyId::ShiftRight) {
                    self.shift = false;
                }
                if matches!(k, KeyId::ControlLeft | KeyId::ControlRight) {
                    self.ctrl = false;
                }
            }
            _ => {}
        }
    }
}

/// Applying the same event twice leaves the same state as applying it
/// once: each press or release pins its modifier's flag, so a repeat
/// changes nothing further.
pub proof fn lemma_after_event_idempotent(m: ModifierState, e: EventKind)
    ensures
        after_event(after_event(m, e), e) == after_event(m, e),
{
}

} // verus!
