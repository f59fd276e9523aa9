//! Key bindings: a sound reference gated by a modifier set and a key.
//!
//! A table is an ordered sequence of bindings, built once at startup
//! (compiled in, or loaded from a directory) and immutable afterward.
//! Matching is exact: a binding fires only when its key equals the
//! event's key and its modifier set equals the tracked state, and the
//! earliest matching binding in registration order wins.

use vstd::prelude::*;
use crate::events::ModifierState;
use crate::keys::KeyId;

verus! {

/// One of the compiled-in sound clips of the standard table.
#[derive(Clone, Copy, PartialEq, Eq, Structural, Debug)]
pub enum SoundId {
    DoorEnter,
    Heal,
    Collision,
    Teleport,
    Fly,
    Poison,
    BallThrow,
    CatchFail,
    Dex,
    Wrong,
    Save,
}

/// What a binding plays: a compiled-in clip, or a file loaded lazily
/// at trigger time from the stored path (path bytes, as the directory
/// scan delivered them).
#[derive(Clone, PartialEq, Eq, Debug)]
pub enum SoundRef {
    Builtin(SoundId),
    File(Vec<u8>),
}

/// Mathematical image of a `SoundRef`.
pub ghost enum SoundModel {
    Builtin(SoundId),
    File(Seq<u8>),
}

impl View for SoundRef {
    type V = SoundModel;

    open spec fn view(&self) -> SoundModel {
        match self {
            SoundRef::Builtin(id) => SoundModel::Builtin(*id),
            SoundRef::File(p) => SoundModel::File(p@),
        }
    }
}

/// One binding: the exact modifier set that must be held, the
/// triggering key, and the sound to play.
#[derive(Clone, PartialEq, Eq, Debug)]
pub struct KeyBinding {
    pub cmd: bool,
    pub shift: bool,
    pub ctrl: bool,
    pub key: KeyId,
    pub sound: SoundRef,
}

/// Mathematical image of a `KeyBinding`.
pub ghost struct BindingModel {
    pub cmd: bool,
    pub shift: bool,
    pub ctrl: bool,
    pub key: KeyId,
    pub sound: SoundModel,
}

impl View for KeyBinding {
    type V = BindingModel;

    open spec fn view(&self) -> BindingModel {
        BindingModel {
            cmd: self.cmd,
            shift: self.shift,
            ctrl: self.ctrl,
            key: self.key,
            sound: self.sound@,
        }
    }
}

/// Whether binding `b` fires for key `k` under held modifiers `m`:
/// the key matches and the modifier set equals the held set exactly,
/// so a binding never fires with extra modifiers held.
pub open spec fn binding_matches(b: BindingModel, m: ModifierState, k: KeyId) -> bool {
    &&& b.key == k
    &&& b.cmd == m.cmd
    &&& b.shift == m.shift
    &&& b.ctrl == m.ctrl
}

/// An ordered sequence of bindings; earlier entries take priority.
/// Built once at startup and then shared by reference.
#[derive(Debug)]
pub struct KeybindingTable {
    bindings: Vec<KeyBinding>,
}

impl View for KeybindingTable {
    type V = Seq<BindingModel>;

    closed spec fn view(&self) -> Seq<BindingModel> {
        self.bindings@.map_values(|b: KeyBinding| b@)
    }
}

impl KeybindingTable {
    /// The empty table. A directory with no valid files still yields a
    /// working (if silent) dispatcher.
    pub fn new() -> (r: KeybindingTable)
        ensures
            r@ =~= Seq::<BindingModel>::empty(),
    {
        KeybindingTable { bindings: Vec::new() }
    }

    /// Registers `b` after every existing binding.
    pub fn push(&mut self, b: KeyBinding)
        ensures
            final(self)@ =~= old(self)@.push(b@),
    {
        self.bindings.push(b);
    }

    /// Number of registered bindings.
    pub fn len(&self) -> (r: usize)
        ensures
            r == self@.len(),
    {
        self.bindings.len()
    }

    /// The binding at index `i`.
    pub fn get(&self, i: usize) -> (r: &KeyBinding)
        requires
            i < self@.len(),
        ensures
            r@ == self@[i as int],
    {
        &self.bindings[i]
    }

    /// The index of the first binding that fires for key `k` under
    /// held modifiers `m`, scanning in registration order; `None` when
    /// no binding matches.
    pub fn first_match(&self, m: &ModifierState, k: KeyId) -> (r: Option<usize>)
        ensures
            match r {
                Some(i) => {
                    &&& i < self@.len()
                    &&& binding_matches(self@[i as int], *m, k)
                    &&& forall|j: int| 0 <= j < i ==> !binding_matches(self@[j], *m, k)
                },
                None => forall|j: int| 0 <= j < self@.len() ==> !binding_matches(self@[j], *m, k),
            },
    {
        let n = self.bindings.len();
        let mut i: usize = 0;
        while i < n
            invariant
                n == self@.len(),
                0 <= i <= n,
                forall|j: int| 0 <= j < i ==> !binding_matches(self@[j], *m, k),
            decreases n - i,
        {
            let b = &self.bindings[i];
            if b.key == k && b.cmd == m.cmd && b.shift == m.shift && b.ctrl == m.ctrl {
                assert(binding_matches(self@[i as int], *m, k));
                return Some(i);
            }
            assert(!binding_matches(self@[i as int], *m, k));
            i += 1;
        }
        None
    }
}

} // verus!
