//! Respawning — how long a unit stays down, and what coming back restores.

use vstd::prelude::*;

use crate::progression::at_least_zero;
use crate::scalar::Scalar;

verus! {

/// How a unit comes back after dying.
#[derive(Clone, PartialEq, Debug)]
pub struct RespawnSpec {
    /// Seconds dead before coming back.
    pub after: Scalar,
    pub clear_cooldowns: bool,
    pub refill_resources: bool,
}

impl RespawnSpec {
    /// The delay in effect: the declared one when finite, never below zero;
    /// `0.0` when it is not finite.
    pub fn seconds(&self) -> (r: Scalar)
        ensures
            r == (if self.after.spec_is_finite() { at_least_zero(self.after) } else { Scalar::zero_spec() }),
    {
        if self.after.is_finite() {
            if self.after.is_negative() { Scalar::zero() } else { self.after }
        } else {
            Scalar::zero()
        }
    }

    /// Respawn after `secs`, restoring nothing else.
    pub fn after(secs: Scalar) -> (r: Self)
        ensures
            r.after == secs,
            !r.clear_cooldowns,
            !r.refill_resources,
    {
        RespawnSpec { after: secs, clear_cooldowns: false, refill_resources: false }
    }
}

} // verus!
