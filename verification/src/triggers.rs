//! Reactions — effect trees that run when a lifecycle or custom event fires.

use vstd::prelude::*;

use crate::common::ImpactTarget;
use crate::conditions::Condition;
use crate::ids::{EventId, Slot, TagId};
use crate::impacts::Impact;
use crate::math::Value;

verus! {

/// The events a reaction can listen to.
#[derive(Clone, Copy, PartialEq, Eq, Structural, Hash, Debug)]
pub enum EventKind {
    OnCastStart,
    OnCast,
    OnHit,
    OnDamageDealt,
    OnDamageTaken,
    OnLethalDamage,
    OnKill,
    OnDeath,
    OnCcApplied,
    OnCcEnded,
    OnPickup,
    OnTick,
    OnMove,
    OnChannelProgress,
    OnHeal,
    OnShieldChanged,
    OnStacksChanged,
    OnAutoAttack,
    OnAbilityReady,
    OnBuffApplied,
    OnBuffExpired,
    OnSpawn,
    OnDespawn,
    Custom(EventId),
}

/// Narrows which occurrences of an event a reaction answers.
#[derive(Clone, PartialEq, Debug, Default)]
pub struct EventFilter {
    pub source_slot: Option<Slot>,
    pub every_nth: Option<u16>,
    pub require_tag_on_target: Option<TagId>,
}

/// An effect tree run when an event fires and its condition holds.
#[derive(Clone, PartialEq, Debug)]
pub struct Reaction {
    pub on: EventKind,
    pub filter: EventFilter,
    pub cond: Condition,
    pub effects: Vec<Impact>,
    pub target: ImpactTarget,
    pub internal_cd: Option<Value>,
    pub charges: Option<u16>,
}

} // verus!
