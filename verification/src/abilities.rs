//! `AbilityDescriptor` — a fully generic, data-defined ability. Its named
//! parameters (`ParamId -> Value`) are exactly what talents patch; the dispatch
//! path is the same for every ability regardless of hero or slot.

use vstd::prelude::*;

use crate::common::TargetFilter;
use crate::conditions::Condition;
use crate::ids::{AbilityId, ParamId, ResourceId, TagId};
use crate::impacts::Impact;
use crate::math::Value;

verus! {

/// Named ability parameters, resolved as `Value`s: an association list whose
/// first entry for a parameter is the one that counts.
#[derive(Clone, PartialEq, Debug, Default)]
pub struct Params(pub Vec<(ParamId, Value)>);

impl Params {
    /// The expression bound to `param`: that of its first entry, if present.
    pub fn get(&self, param: ParamId) -> (r: Option<&Value>)
        ensures
            match r {
                Some(v) => exists|i: int|
                    0 <= i < self.0@.len() && (#[trigger] self.0@[i]).0 == param && *v == self.0@[i].1
                        && forall|j: int| 0 <= j < i ==> (#[trigger] self.0@[j]).0 != param,
                None => forall|i: int| 0 <= i < self.0@.len() ==> (#[trigger] self.0@[i]).0 != param,
            },
    {
        let mut i: usize = 0;
        while i < self.0.len()
            invariant
                i <= self.0@.len(),
                forall|j: int| 0 <= j < i ==> (#[trigger] self.0@[j]).0 != param,
            decreases self.0@.len() - i,
        {
            if self.0[i].0 == param {
                return Some(&self.0[i].1);
            }
            i = i + 1;
        }
        None
    }
}

/// How the ability is aimed — the mode alone; the numbers that go with it are
/// reserved params.
#[derive(Clone, PartialEq, Debug)]
pub enum Targeting {
    NoTarget,
    Unit { filter: TargetFilter },
    Point,
    Vector,
    SelfCast,
}

/// The kind of aim a [`Targeting`] mode admits — the one rule the client and the
/// server both read.
#[derive(Clone, Copy, PartialEq, Eq, Structural, Hash, Debug)]
pub enum AimShape {
    /// No aim at all — a self-cast or a no-target ability.
    Untargeted,
    /// A target unit.
    Unit,
    /// A world-space ground point.
    Point,
    /// A world-space direction from the caster.
    Vector,
}

impl Targeting {
    /// The aim shape this mode admits.
    pub fn shape(&self) -> (r: AimShape)
        ensures
            r == (match *self {
                Targeting::NoTarget | Targeting::SelfCast => AimShape::Untargeted,
                Targeting::Unit { .. } => AimShape::Unit,
                Targeting::Point => AimShape::Point,
                Targeting::Vector => AimShape::Vector,
            }),
    {
        match self {
            Targeting::NoTarget | Targeting::SelfCast => AimShape::Untargeted,
            Targeting::Unit { .. } => AimShape::Unit,
            Targeting::Point => AimShape::Point,
            Targeting::Vector => AimShape::Vector,
        }
    }

    /// The filter a unit-target mode narrows its target with, if this is one.
    pub fn filter(&self) -> (r: Option<&TargetFilter>)
        ensures
            r == (match *self {
                Targeting::Unit { filter } => Some(&filter),
                _ => None,
            }),
    {
        match self {
            Targeting::Unit { filter } => Some(filter),
            _ => None,
        }
    }
}

/// The cast/channel window.
#[derive(Clone, PartialEq, Debug)]
pub enum CastSpec {
    Instant,
    Cast { time: Value, movable: bool },
    Channel { time: Value, movable: bool, tick: Option<Value> },
}

/// A resource the cast consumes.
#[derive(Clone, PartialEq, Debug)]
pub enum Cost {
    Resource { res: ResourceId, amount: Value },
    Charge,
    Health { amount: Value },
}

/// A generic ability. Cast flow: `cast_gate` and cost check, pay,
/// `on_cast_start`, the cast/channel window, `on_cast`, then an `OnCast` event.
#[derive(Clone, PartialEq, Debug)]
pub struct AbilityDescriptor {
    pub id: AbilityId,
    pub params: Params,
    pub targeting: Targeting,
    pub cast: CastSpec,
    pub cost: Vec<Cost>,
    /// Extra can-cast predicate (silence is handled generically by a tag class).
    pub cast_gate: Condition,
    pub on_cast_start: Vec<Impact>,
    pub on_cast: Vec<Impact>,
    /// Ability categories for talent selectors (e.g. an "ultimate" tag).
    pub tags: Vec<TagId>,
}

} // verus!
