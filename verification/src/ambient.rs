//! Decisions of the adaptive ambient playback engine.
//!
//! The pacing loop alternates two checks, forever: a refill check that
//! keeps the queue from running dry, and an activity check that turns
//! recent keystrokes into one-shot resumes. Everything that touches
//! the real queue, sink, lock or clock lives outside the library; the
//! functions here take the observed state as plain values and return
//! the decided action, so the whole feedback policy is verified.

use vstd::prelude::*;

verus! {

/// Queue depth at or below which the loop replenishes.
pub const LOW_WATER: usize = 5;

/// How many copies of the loop track one refill appends.
pub const REFILL_BATCH: usize = 5;

/// The pacing formula's floor, in milliseconds.
pub const SLEEP_FLOOR_MS: u64 = 500;

/// Extra check-interval milliseconds per consecutive trigger.
pub const TRIGGER_WEIGHT_MS: u64 = 10;

/// Shared state between the input hook (producer) and the pacing loop
/// (consumer): an edge-triggered play request, and how many triggers
/// arrived since the streak was last cleared.
#[derive(Clone, Copy, PartialEq, Eq, Structural, Debug)]
pub struct ActivitySignal {
    pub should_play: bool,
    pub consecutive_triggers: u64,
}

impl ActivitySignal {
    /// The signal at the start of a session: idle.
    pub fn new() -> (r: ActivitySignal)
        ensures
            r == (ActivitySignal { should_play: false, consecutive_triggers: 0 }),
    {
        ActivitySignal { should_play: false, consecutive_triggers: 0 }
    }

    /// Producer step, run when an event carrying a name payload gets
    /// the lock: request one resume and lengthen the streak. (On
    /// contention the caller simply drops the update; that loss is a
    /// designed trade, not handled here.)
    pub fn record_trigger(&mut self)
        requires
            old(self).consecutive_triggers < u64::MAX,
        ensures
            *final(self) == (ActivitySignal {
                should_play: true,
                consecutive_triggers: (old(self).consecutive_triggers + 1) as u64,
            }),
    {
        self.should_play = true;
        self.consecutive_triggers = self.consecutive_triggers + 1;
    }
}

/// What one refill check does to the queue and sink.
#[derive(Clone, Copy, PartialEq, Eq, Structural, Debug)]
pub struct RefillAction {
    pub append: usize,
    pub pause: bool,
}

/// Refill check: with `pending` items left in the queue, decide how
/// many copies of the loop track to append, and whether to pause the
/// sink right after. At or below the low-water mark, exactly one
/// fixed batch goes in and the sink is paused; above it, nothing
/// happens. The batch is fixed, never proportional to activity, so
/// the queue can neither run dry mid-cycle nor grow without bound.
pub fn refill_check(pending: usize) -> (r: RefillAction)
    ensures
        pending <= LOW_WATER ==> r == (RefillAction { append: REFILL_BATCH, pause: true }),
        pending > LOW_WATER ==> r == (RefillAction { append: 0, pause: false }),
{
    if pending <= LOW_WATER {
        RefillAction { append: REFILL_BATCH, pause: true }
    } else {
        RefillAction { append: 0, pause: false }
    }
}

/// Law: the refill decision keeps the queue alive and bounded. After
/// one check the queue holds at least one full batch, so playback can
/// never run dry mid-cycle; and a queue that started within one batch
/// above the low-water mark never grows past that ceiling, because
/// the batch is fixed rather than proportional to activity.
pub proof fn lemma_refill_queue_bounds(pending: usize, r: RefillAction)
    requires
        pending <= LOW_WATER ==> r == (RefillAction { append: REFILL_BATCH, pause: true }),
        pending > LOW_WATER ==> r == (RefillAction { append: 0, pause: false }),
    ensures
        pending + r.append >= REFILL_BATCH,
        pending <= LOW_WATER + REFILL_BATCH ==> pending + r.append <= LOW_WATER + REFILL_BATCH,
{
}

/// What the activity check tells the sink to do.
#[derive(Clone, Copy, PartialEq, Eq, Structural, Debug)]
pub enum SinkAction {
    Resume,
    Pause,
    Keep,
}

/// Activity check, run with the signal's lock held. A pending play
/// request resumes the sink and is consumed (edge-triggered: one
/// keystroke, one resume). With no request, a sink that still holds
/// unplayed content and is not yet paused gets paused and the trigger
/// streak is cleared. Otherwise nothing changes.
pub fn activity_check(signal: &mut ActivitySignal, sink_empty: bool, sink_paused: bool) -> (a:
    SinkAction)
    ensures
        old(signal).should_play ==> a == SinkAction::Resume && *final(signal) == (ActivitySignal {
            should_play: false,
            consecutive_triggers: old(signal).consecutive_triggers,
        }),
        !old(signal).should_play && !sink_empty && !sink_paused ==> a == SinkAction::Pause
            && *final(signal) == (ActivitySignal { should_play: false, consecutive_triggers: 0 }),
        !old(signal).should_play && (sink_empty || sink_paused) ==> a == SinkAction::Keep
            && *final(signal) == *old(signal),
{
    if signal.should_play {
        signal.should_play = false;
        SinkAction::Resume
    } else if !sink_empty && !sink_paused {
        signal.consecutive_triggers = 0;
        SinkAction::Pause
    } else {
        SinkAction::Keep
    }
}

/// The pacing interval, mathematically: `floor + max(count * weight,
/// floor)`. Idle pacing is thus twice the floor (1000 ms), and each
/// consecutive trigger past fifty widens the interval by the weight:
/// heavier recent activity makes the loop check *less* often. That
/// inversion is a deliberate product decision, kept exactly.
pub open spec fn pacing_interval_ms(count: u64) -> int {
    if count * TRIGGER_WEIGHT_MS > SLEEP_FLOOR_MS {
        SLEEP_FLOOR_MS + count * TRIGGER_WEIGHT_MS
    } else {
        SLEEP_FLOOR_MS + SLEEP_FLOOR_MS
    }
}

/// How long the pacing loop sleeps after a cycle, given the current
/// trigger streak. The bound on `count` only keeps the arithmetic in
/// the machine word; it is astronomically far above any reachable
/// streak.
pub fn sleep_interval_ms(count: u64) -> (r: u64)
    requires
        count * TRIGGER_WEIGHT_MS + SLEEP_FLOOR_MS <= u64::MAX,
    ensures
        r == pacing_interval_ms(count),
{
    let weighted = count * TRIGGER_WEIGHT_MS;
    if weighted > SLEEP_FLOOR_MS {
        SLEEP_FLOOR_MS + weighted
    } else {
        SLEEP_FLOOR_MS + SLEEP_FLOOR_MS
    }
}

} // verus!
