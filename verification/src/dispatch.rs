//! The action dispatcher: one step of the event-handling path.
//!
//! Each incoming event first updates the held-modifier state, then, if
//! it is a key press, is matched against the table in registration
//! order. The dispatcher only *decides*; launching playback from the
//! returned index is the caller's non-blocking concern, so the input
//! hook never waits on decode or output.

use vstd::prelude::*;
use crate::binding::{binding_matches, BindingModel, KeybindingTable};
use crate::events::{after_event, EventKind, InputEvent, ModifierState};
use crate::keys::KeyId;

verus! {

/// `i` is the index of the first binding of `t` that fires for key
/// `k` under held modifiers `m`.
pub open spec fn is_first_match(t: Seq<BindingModel>, m: ModifierState, k: KeyId, i: int) -> bool {
    &&& 0 <= i < t.len()
    &&& binding_matches(t[i], m, k)
    &&& forall|j: int| 0 <= j < i ==> !binding_matches(t[j], m, k)
}

/// No binding of `t` fires for key `k` under held modifiers `m`.
pub open spec fn no_match(t: Seq<BindingModel>, m: ModifierState, k: KeyId) -> bool {
    forall|j: int| 0 <= j < t.len() ==> !binding_matches(t[j], m, k)
}

/// What the dispatcher owes for event `e` under (already updated)
/// modifiers `m`: on a key press, the first matching binding's index,
/// or `None` when none matches; on any other event, `None`.
pub open spec fn dispatch_result(
    t: Seq<BindingModel>,
    m: ModifierState,
    e: InputEvent,
    r: Option<usize>,
) -> bool {
    match e.kind {
        EventKind::KeyPress(k) => match r {
            Some(i) => is_first_match(t, m, k, i as int),
            None => no_match(t, m, k),
        },
        _ => r is None,
    }
}

/// One full dispatcher step: fold the event into the modifier state,
/// then match a key press against the table. Returns the index of the
/// binding to fire, if any.
pub fn handle_event(table: &KeybindingTable, mods: &mut ModifierState, e: &InputEvent) -> (r:
    Option<usize>)
    ensures
        *final(mods) == after_event(*old(mods), e.kind),
        dispatch_result(table@, *final(mods), *e, r),
{
    mods.update(e.kind);
    match e.kind {
        EventKind::KeyPress(k) => table.first_match(mods, k),
        _ => None,
    }
}

/// Law: the dispatcher is idempotent on events that match no binding.
/// If handling `e` from state `m` fires nothing, handling the same
/// event again fires nothing and leaves the very state the first call
/// left: the event's own press/release effect on the modifiers, and
/// nothing more.
pub proof fn lemma_no_match_idempotent(
    t: Seq<BindingModel>,
    m: ModifierState,
    e: InputEvent,
)
    requires
        e.kind matches EventKind::KeyPress(k) ==> no_match(t, after_event(m, e.kind), k),
    ensures
        after_event(after_event(m, e.kind), e.kind) == after_event(m, e.kind),
        e.kind matches EventKind::KeyPress(k) ==> no_match(
            t,
            after_event(after_event(m, e.kind), e.kind),
            k,
        ),
{
}

} // verus!
