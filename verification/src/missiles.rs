//! `BodyDescriptor` — anything an effect spawns into the world: a missile, a
//! summoned unit, a lingering zone. Its hooks are ordinary effect trees.

use vstd::prelude::*;

use crate::common::TargetFilter;
use crate::impacts::{clone_impacts, Impact};
use crate::math::Value;
use crate::remap::{body_same, KeepIds, RemapIds};

verus! {

/// What kind of body is spawned.
#[derive(PartialEq, Debug)]
pub enum BodyKind {
    Missile { speed: Value, range: Value, homing: bool, pierce: Value },
    Unit { health: Value, duration: Option<Value> },
    Zone { radius: Value, duration: Value, tick: Value },
}

/// What a body collides with.
#[derive(PartialEq, Debug)]
pub struct CollisionSpec {
    pub filter: TargetFilter,
    pub pierce: Value,
    pub through_walls: bool,
}

/// Switches on a body.
impl Clone for BodyKind {
    fn clone(&self) -> (r: Self)
        ensures
            r == *self,
    {
        match self {
            BodyKind::Missile { speed, range, homing, pierce } => BodyKind::Missile {
                speed: speed.clone(),
                range: range.clone(),
                homing: *homing,
                pierce: pierce.clone(),
            },
            BodyKind::Unit { health, duration } => BodyKind::Unit { health: health.clone(), duration: duration.clone() },
            BodyKind::Zone { radius, duration, tick } => BodyKind::Zone {
                radius: radius.clone(),
                duration: duration.clone(),
                tick: tick.clone(),
            },
        }
    }
}

impl Clone for CollisionSpec {
    fn clone(&self) -> (r: Self)
        ensures
            r.filter.affiliation == self.filter.affiliation,
            r.filter.require_tags@ == self.filter.require_tags@,
            r.filter.exclude_tags@ == self.filter.exclude_tags@,
            r.filter.include_dead == self.filter.include_dead,
            r.pierce == self.pierce,
            r.through_walls == self.through_walls,
    {
        CollisionSpec { filter: self.filter.clone(), pierce: self.pierce.clone(), through_walls: self.through_walls }
    }
}

#[derive(Clone, Copy, PartialEq, Eq, Structural, Hash, Debug, Default)]
pub struct BodyFlags {
    pub reflectable: bool,
    pub cross_dimension: bool,
    pub live_values: bool,
}

/// A spawned body and the effects it carries.
#[derive(PartialEq, Debug)]
pub struct BodyDescriptor {
    pub kind: BodyKind,
    pub on_spawn: Vec<Impact>,
    pub on_hit: Vec<Impact>,
    pub on_expire: Vec<Impact>,
    pub collision: CollisionSpec,
    pub flags: BodyFlags,
    pub height: Value,
}

impl Clone for BodyDescriptor {
    /// A copy holding the same contents.
    fn clone(&self) -> (r: Self)
        ensures
            body_same(r, *self),
        decreases self,
    {
        proof {
            self.lemma_same_refl(&KeepIds);
        }
        BodyDescriptor {
            kind: self.kind.clone(),
            on_spawn: clone_impacts(&self.on_spawn),
            on_hit: clone_impacts(&self.on_hit),
            on_expire: clone_impacts(&self.on_expire),
            collision: self.collision.clone(),
            flags: self.flags,
            height: self.height.clone(),
        }
    }
}

} // verus!
