//! `AttackDescriptor` — the basic attack, declared as content: an ordinary
//! effect payload delivered on a timeline the engine drives generically.

use vstd::prelude::*;

use crate::common::TargetFilter;
use crate::impacts::Impact;
use crate::math::Value;
use crate::missiles::BodyDescriptor;

verus! {

/// How an attack's payload reaches its target: on the target at the swing
/// point, or riding a launched body and resolving on arrival.
#[derive(Clone, PartialEq, Debug)]
pub enum AttackDelivery {
    Melee,
    Ranged { body: BodyDescriptor },
}

/// A unit's basic attack: a payload, whom it may be pointed at, how it is
/// delivered, and the timeline (in seconds and world units) the engine drives.
#[derive(Clone, PartialEq, Debug)]
pub struct AttackDescriptor {
    pub payload: Vec<Impact>,
    pub filter: TargetFilter,
    pub delivery: AttackDelivery,
    pub windup: Value,
    pub recovery: Value,
    pub period: Value,
    pub range: Value,
}

} // verus!
