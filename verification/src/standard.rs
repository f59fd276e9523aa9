//! The compiled-in binding table.
//!
//! One data-driven table replaces a sheet of near-identical per-sound
//! handlers: entries, not code, vary per sound. Bindings that require
//! two modifiers are registered before the single-modifier binding on
//! the same key, so they win under first-match dispatch.

use vstd::prelude::*;
use crate::binding::{BindingModel, KeyBinding, KeybindingTable, SoundId, SoundModel, SoundRef};
use crate::keys::KeyId;

verus! {

/// The entries of the standard table, in registration order.
pub open spec fn standard_bindings() -> Seq<BindingModel> {
    seq![
        // cmd+shift+k
        BindingModel {
            cmd: true,
            shift: true,
            ctrl: false,
            key: KeyId::Letter(107),
            sound: SoundModel::Builtin(SoundId::Poison),
        },
        // cmd+ctrl+c
        BindingModel {
            cmd: true,
            shift: false,
            ctrl: true,
            key: KeyId::Letter(99),
            sound: SoundModel::Builtin(SoundId::Wrong),
        },
        // cmd+w
        BindingModel {
            cmd: true,
            shift: false,
            ctrl: false,
            key: KeyId::Letter(119),
            sound: SoundModel::Builtin(SoundId::DoorEnter),
        },
        // cmd+s
        BindingModel {
            cmd: true,
            shift: false,
            ctrl: false,
            key: KeyId::Letter(115),
            sound: SoundModel::Builtin(SoundId::Heal),
        },
        // cmd+z
        BindingModel {
            cmd: true,
            shift: false,
            ctrl: false,
            key: KeyId::Letter(122),
            sound: SoundModel::Builtin(SoundId::Collision),
        },
        // cmd+p
        BindingModel {
            cmd: true,
            shift: false,
            ctrl: false,
            key: KeyId::Letter(112),
            sound: SoundModel::Builtin(SoundId::Teleport),
        },
        // cmd+c
        BindingModel {
            cmd: true,
            shift: false,
            ctrl: false,
            key: KeyId::Letter(99),
            sound: SoundModel::Builtin(SoundId::BallThrow),
        },
        // cmd+v
        BindingModel {
            cmd: true,
            shift: false,
            ctrl: false,
            key: KeyId::Letter(118),
            sound: SoundModel::Builtin(SoundId::CatchFail),
        },
        // cmd+r
        BindingModel {
            cmd: true,
            shift: false,
            ctrl: false,
            key: KeyId::Letter(114),
            sound: SoundModel::Builtin(SoundId::Dex),
        },
        // cmd+m
        BindingModel {
            cmd: true,
            shift: false,
            ctrl: false,
            key: KeyId::Letter(109),
            sound: SoundModel::Builtin(SoundId::Save),
        },
        // cmd+backspace
        BindingModel {
            cmd: true,
            shift: false,
            ctrl: false,
            key: KeyId::Backspace,
            sound: SoundModel::Builtin(SoundId::Poison),
        },
        // escape, no modifiers
        BindingModel {
            cmd: false,
            shift: false,
            ctrl: false,
            key: KeyId::Escape,
            sound: SoundModel::Builtin(SoundId::Fly),
        },
    ]
}

/// Builds the standard table.
pub fn standard_table() -> (t: KeybindingTable)
    ensures
        t@ =~= standard_bindings(),
{
    let mut t = KeybindingTable::new();
    t.push(
        KeyBinding {
            cmd: true,
            shift: true,
            ctrl: false,
            key: KeyId::Letter(107),
            sound: SoundRef::Builtin(SoundId::Poison),
        },
    );
    t.push(
        KeyBinding {
            cmd: true,
            shift: false,
            ctrl: true,
            key: KeyId::Letter(99),
            sound: SoundRef::Builtin(SoundId::Wrong),
        },
    );
    t.push(
        KeyBinding {
            cmd: true,
            shift: false,
            ctrl: false,
            key: KeyId::Letter(119),
            sound: SoundRef::Builtin(SoundId::DoorEnter),
        },
    );
    t.push(
        KeyBinding {
            cmd: true,
            shift: false,
            ctrl: false,
            key: KeyId::Letter(115),
            sound: SoundRef::Builtin(SoundId::Heal),
        },
    );
    t.push(
        KeyBinding {
            cmd: true,
            shift: false,
            ctrl: false,
            key: KeyId::Letter(122),
            sound: SoundRef::Builtin(SoundId::Collision),
        },
    );
    t.push(
        KeyBinding {
            cmd: true,
            shift: false,
            ctrl: false,
            key: KeyId::Letter(112),
            sound: SoundRef::Builtin(SoundId::Teleport),
        },
    );
    t.push(
        KeyBinding {
            cmd: true,
            shift: false,
            ctrl: false,
            key: KeyId::Letter(99),
            sound: SoundRef::Builtin(SoundId::BallThrow),
        },
    );
    t.push(
        KeyBinding {
            cmd: true,
            shift: false,
            ctrl: false,
            key: KeyId::Letter(118),
            sound: SoundRef::Builtin(SoundId::CatchFail),
        },
    );
    t.push(
        KeyBinding {
            cmd: true,
            shift: false,
            ctrl: false,
            key: KeyId::Letter(114),
            sound: SoundRef::Builtin(SoundId::Dex),
        },
    );
    t.push(
        KeyBinding {
            cmd: true,
            shift: false,
            ctrl: false,
            key: KeyId::Letter(109),
            sound: SoundRef::Builtin(SoundId::Save),
        },
    );
    t.push(
        KeyBinding {
            cmd: true,
            shift: false,
            ctrl: false,
            key: KeyId::Backspace,
            sound: SoundRef::Builtin(SoundId::Poison),
        },
    );
    t.push(
        KeyBinding {
            cmd: false,
            shift: false,
            ctrl: false,
            key: KeyId::Escape,
            sound: SoundRef::Builtin(SoundId::Fly),
        },
    );
    t
}

} // verus!
