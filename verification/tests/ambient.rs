use keysounds::ambient::{
    activity_check, refill_check, sleep_interval_ms, ActivitySignal, SinkAction,
};
use keysounds::events::{is_activity_trigger, EventKind, InputEvent};
use keysounds::keys::KeyId;

#[test]
fn idle_interval_is_one_second() {
    assert_eq!(sleep_interval_ms(0), 1000);
}

#[test]
fn interval_after_sixty_triggers() {
    assert_eq!(sleep_interval_ms(60), 1100);
}

#[test]
fn interval_floor_and_first_step_past_it() {
    // 50 * 10 == 500 does not yet exceed the floor
    assert_eq!(sleep_interval_ms(50), 1000);
    assert_eq!(sleep_interval_ms(51), 1010);
}

#[test]
fn refill_at_or_below_low_water() {
    for pending in 0..=5 {
        let r = refill_check(pending);
        assert_eq!(r.append, 5);
        assert!(r.pause);
    }
}

#[test]
fn no_refill_above_low_water() {
    let r = refill_check(6);
    assert_eq!(r.append, 0);
    assert!(!r.pause);
}

#[test]
fn pending_play_resumes_once() {
    let mut s = ActivitySignal::new();
    s.record_trigger();
    s.record_trigger();
    assert!(s.should_play);
    assert_eq!(s.consecutive_triggers, 2);

    // the request is consumed, the streak is kept
    let a = activity_check(&mut s, false, true);
    assert_eq!(a, SinkAction::Resume);
    assert!(!s.should_play);
    assert_eq!(s.consecutive_triggers, 2);

    // a second check without new input pauses and clears the streak
    let a = activity_check(&mut s, false, false);
    assert_eq!(a, SinkAction::Pause);
    assert_eq!(s.consecutive_triggers, 0);
}

#[test]
fn any_named_event_is_activity() {
    // looser than dispatch: even a release or an unbound key counts,
    // as long as the event carried a name payload
    let named = InputEvent { kind: EventKind::KeyRelease(KeyId::Other), has_name: true };
    assert!(is_activity_trigger(&named));
    let silent = InputEvent { kind: EventKind::KeyPress(KeyId::Letter(b'a')), has_name: false };
    assert!(!is_activity_trigger(&silent));
}

#[test]
fn idle_sink_is_left_alone() {
    let mut s = ActivitySignal::new();
    s.record_trigger();
    let _ = activity_check(&mut s, false, true);
    let streak = s.consecutive_triggers;

    // already paused: nothing to do, streak untouched
    let a = activity_check(&mut s, false, true);
    assert_eq!(a, SinkAction::Keep);
    assert_eq!(s.consecutive_triggers, streak);

    // empty sink: nothing to pause
    let a = activity_check(&mut s, true, false);
    assert_eq!(a, SinkAction::Keep);
    assert_eq!(s.consecutive_triggers, streak);
}
