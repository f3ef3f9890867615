//! The wasm runtime ABI — the contract for invoking a guest after load.
//!
//! A guest invocation is a pure function of its context; its only output is a
//! list of [`Impact`]s ([`GuestEffects`]). A guest exposes a small, fixed set of
//! exports, each returning a packed `(ptr, len)` (see [`crate::bridge`]) that
//! addresses its encoded effects; `(0, 0)` means "no effects".

use vstd::prelude::*;

use crate::ids::EventId;
use crate::impacts::Impact;
use crate::math::Value;

verus! {

/// Export name: the guest allocator the host calls to push a context blob in.
pub const ALLOC_EXPORT: &'static str = "mod_alloc";
/// Export name: the `Custom`-impact handler dispatch entry.
pub const HANDLE_EXPORT: &'static str = "mod_handle";
/// Export name: the per-tick entry.
pub const TICK_EXPORT: &'static str = "mod_tick";
/// Export name: the trigger/reaction entry.
pub const TRIGGER_EXPORT: &'static str = "mod_trigger";

/// A guest entry point's entire output: the effects it proposes. Empty is the
/// common case.
#[derive(Clone, PartialEq, Debug, Default)]
pub struct GuestEffects {
    pub effects: Vec<Impact>,
}

impl GuestEffects {
    /// A result proposing no effects.
    pub fn none() -> (r: Self)
        ensures
            r.effects@.len() == 0,
    {
        GuestEffects { effects: Vec::new() }
    }

    /// A result proposing exactly `effects`.
    pub fn new(effects: Vec<Impact>) -> (r: Self)
        ensures
            r.effects == effects,
    {
        GuestEffects { effects }
    }
}

/// The context handed to the tick export: the current simulation tick.
#[derive(Clone, Copy, PartialEq, Eq, Structural, Debug, Default)]
pub struct TickContext {
    pub tick: u64,
}

/// The context handed to the trigger export: which mod-defined event fired and
/// the payload its `Emit` carried.
#[derive(Clone, PartialEq, Debug)]
pub struct TriggerContext {
    pub event: EventId,
    pub payload: Value,
}

} // verus!
