//! `Impact` — the effect tree an ability, reaction or body resolves. Four
//! combinators (`Retarget`, `If`, `Loop`, `Delay`) shape the tree; every other
//! variant is a leaf the engine applies.

use vstd::prelude::*;

use crate::common::{Direction, ImpactTarget, NumOp, Point3, TargetFilter};
use crate::conditions::Condition;
use crate::ids::{BuffId, DamageTypeId, EventId, HandlerId, ResourceId, StackId, TagClassId, TagId};
use crate::math::Value;
use crate::missiles::BodyDescriptor;
use crate::remap::{impact_same, impacts_same, KeepIds, RemapIds};
use crate::slot_ref::SlotRef;

verus! {

/// The area a `Retarget` expands into.
#[derive(PartialEq, Debug)]
pub enum TargetShape {
    SelfOnly,
    Circle { radius: Value },
    Cone { radius: Value, angle: Value },
    Chain { jumps: Value, range: Value },
    Line { length: Value, width: Value },
    AllAllies,
    AllEnemies,
}

/// How a `Loop` repeats its body.
#[derive(PartialEq, Debug)]
pub enum LoopKind {
    Times { count: Value, gap: Value },
    Interval { period: Value, ticks: Value },
}

/// A numeric pool an `AdjustPool` acts on.
#[derive(Clone, Copy, PartialEq, Eq, Structural, Hash, Debug)]
pub enum PoolRef {
    Shield,
    Resource(ResourceId),
    Stacks(StackId),
    /// The cooldown of the ability in a slot.
    Cooldown(SlotRef),
    /// The charges of the ability in a slot.
    Charges(SlotRef),
}

/// Which modifiers a `RemoveModifiers` strips.
#[derive(Clone, Copy, PartialEq, Eq, Structural, Hash, Debug)]
pub enum BuffSelector {
    Id(BuffId),
    Class(TagClassId),
}

/// Where a `Teleport` lands.
#[derive(PartialEq, Debug)]
pub enum TeleportDest {
    ToTarget,
    ToPoint(Point3),
    Offset(Direction, Value),
    Home,
}

/// Where a `Spawn` places its body.
#[derive(Clone, Copy, PartialEq, Debug)]
pub enum SpawnAnchor {
    Caster,
    Target,
    Source,
    Point(Point3),
}

/// How several spawned bodies are arranged.
#[derive(PartialEq, Debug)]
pub enum SpawnPattern {
    Single,
    Radial { count: Value },
    Arc { count: Value, spread: Value },
}

/// Whom a nested `CastAbility` aims at.
#[derive(Clone, Copy, PartialEq, Debug)]
pub enum AbilityTarget {
    Inherit,
    PrimaryTarget,
    Caster,
    Point(Point3),
}

/// Whether a nested cast pays its costs.
#[derive(Clone, Copy, PartialEq, Eq, Structural, Hash, Debug)]
pub enum CostMode {
    Normal,
    Free,
}

/// Which pending effects a `ResolvePending` settles.
#[derive(Clone, Copy, PartialEq, Eq, Structural, Hash, Debug)]
pub enum PendingFilter {
    FromCaster,
    OriginTag(TagId),
}

/// Switches on a damage leaf.
#[derive(Clone, Copy, PartialEq, Eq, Structural, Hash, Debug, Default)]
pub struct DamageFlags {
    pub can_crit: bool,
    pub lifesteal: bool,
}

/// Switches on a heal leaf.
#[derive(Clone, Copy, PartialEq, Eq, Structural, Hash, Debug, Default)]
pub struct HealFlags {
    pub can_overheal: bool,
}

/// One node of an effect tree.
impl Clone for TargetShape {
    fn clone(&self) -> (r: Self)
        ensures
            r == *self,
    {
        match self {
            TargetShape::SelfOnly => TargetShape::SelfOnly,
            TargetShape::Circle { radius } => TargetShape::Circle { radius: radius.clone() },
            TargetShape::Cone { radius, angle } => TargetShape::Cone { radius: radius.clone(), angle: angle.clone() },
            TargetShape::Chain { jumps, range } => TargetShape::Chain { jumps: jumps.clone(), range: range.clone() },
            TargetShape::Line { length, width } => TargetShape::Line { length: length.clone(), width: width.clone() },
            TargetShape::AllAllies => TargetShape::AllAllies,
            TargetShape::AllEnemies => TargetShape::AllEnemies,
        }
    }
}

impl Clone for LoopKind {
    fn clone(&self) -> (r: Self)
        ensures
            r == *self,
    {
        match self {
            LoopKind::Times { count, gap } => LoopKind::Times { count: count.clone(), gap: gap.clone() },
            LoopKind::Interval { period, ticks } => LoopKind::Interval { period: period.clone(), ticks: ticks.clone() },
        }
    }
}

impl Clone for TeleportDest {
    fn clone(&self) -> (r: Self)
        ensures
            r == *self,
    {
        match self {
            TeleportDest::ToTarget => TeleportDest::ToTarget,
            TeleportDest::ToPoint(p) => TeleportDest::ToPoint(*p),
            TeleportDest::Offset(d, v) => TeleportDest::Offset(*d, v.clone()),
            TeleportDest::Home => TeleportDest::Home,
        }
    }
}

impl Clone for SpawnPattern {
    fn clone(&self) -> (r: Self)
        ensures
            r == *self,
    {
        match self {
            SpawnPattern::Single => SpawnPattern::Single,
            SpawnPattern::Radial { count } => SpawnPattern::Radial { count: count.clone() },
            SpawnPattern::Arc { count, spread } => SpawnPattern::Arc { count: count.clone(), spread: spread.clone() },
        }
    }
}

#[derive(PartialEq, Debug)]
pub enum Impact {
    Retarget {
        shape: TargetShape,
        filter: TargetFilter,
        max_targets: Value,
        exclude_primary: bool,
        inner: Vec<Impact>,
    },
    If { cond: Condition, then: Vec<Impact>, els: Vec<Impact> },
    Loop { kind: LoopKind, inner: Vec<Impact> },
    Delay { secs: Value, inner: Vec<Impact> },
    Damage { amount: Value, dtype: DamageTypeId, target: ImpactTarget, flags: DamageFlags },
    Heal { amount: Value, target: ImpactTarget, flags: HealFlags },
    AdjustPool { pool: PoolRef, op: NumOp, amount: Value, target: ImpactTarget },
    ApplyModifiers {
        buff: BuffId,
        stacks: Value,
        duration_override: Option<Value>,
        target: ImpactTarget,
    },
    RemoveModifiers { sel: BuffSelector, target: ImpactTarget },
    Dash {
        dir: Direction,
        dist: Value,
        speed: Option<Value>,
        on_collision: Vec<Impact>,
        target: ImpactTarget,
    },
    Knockback { dir: Direction, force: Value, target: ImpactTarget },
    Teleport { dest: TeleportDest, target: ImpactTarget, record: bool },
    Spawn { body: BodyDescriptor, at: SpawnAnchor, count: Value, pattern: SpawnPattern },
    CastAbility { slot: SlotRef, target: AbilityTarget, value_scale: Value, cost: CostMode },
    Interrupt { target: ImpactTarget },
    ResolvePending { filter: PendingFilter },
    Emit { event: EventId, target: ImpactTarget, payload: Value },
    Custom { handler: HandlerId, params: Vec<u8>, target: ImpactTarget },
}

impl Impact {
    /// Whether this node shapes the tree (`Retarget`, `If`, `Loop`, `Delay`)
    /// rather than being a leaf the engine applies.
    pub fn is_combinator(&self) -> (r: bool)
        ensures
            r == (*self is Retarget || *self is If || *self is Loop || *self is Delay),
    {
        match self {
            Impact::Retarget { .. } | Impact::If { .. } | Impact::Loop { .. } | Impact::Delay { .. } => true,
            _ => false,
        }
    }
}

impl Clone for Impact {
    /// A copy holding the same contents.
    fn clone(&self) -> (r: Self)
        ensures
            impact_same(r, *self),
        decreases self,
    {
        proof {
            self.lemma_same_refl(&KeepIds);
        }
        match self {
            Impact::Retarget { shape, filter, max_targets, exclude_primary, inner } => Impact::Retarget {
                shape: shape.clone(),
                filter: filter.clone(),
                max_targets: max_targets.clone(),
                exclude_primary: *exclude_primary,
                inner: clone_impacts(inner),
            },
            Impact::If { cond, then, els } => Impact::If {
                cond: cond.clone(),
                then: clone_impacts(then),
                els: clone_impacts(els),
            },
            Impact::Loop { kind, inner } => Impact::Loop { kind: kind.clone(), inner: clone_impacts(inner) },
            Impact::Delay { secs, inner } => Impact::Delay { secs: secs.clone(), inner: clone_impacts(inner) },
            Impact::Damage { amount, dtype, target, flags } => Impact::Damage {
                amount: amount.clone(),
                dtype: *dtype,
                target: target.clone(),
                flags: *flags,
            },
            Impact::Heal { amount, target, flags } => Impact::Heal {
                amount: amount.clone(),
                target: target.clone(),
                flags: *flags,
            },
            Impact::AdjustPool { pool, op, amount, target } => Impact::AdjustPool {
                pool: *pool,
                op: *op,
                amount: amount.clone(),
                target: target.clone(),
            },
            Impact::ApplyModifiers { buff, stacks, duration_override, target } => Impact::ApplyModifiers {
                buff: *buff,
                stacks: stacks.clone(),
                duration_override: duration_override.clone(),
                target: target.clone(),
            },
            Impact::RemoveModifiers { sel, target } => Impact::RemoveModifiers { sel: *sel, target: target.clone() },
            Impact::Dash { dir, dist, speed, on_collision, target } => Impact::Dash {
                dir: dir.clone(),
                dist: dist.clone(),
                speed: speed.clone(),
                on_collision: clone_impacts(on_collision),
                target: target.clone(),
            },
            Impact::Knockback { dir, force, target } => Impact::Knockback {
                dir: dir.clone(),
                force: force.clone(),
                target: target.clone(),
            },
            Impact::Teleport { dest, target, record } => Impact::Teleport {
                dest: dest.clone(),
                target: target.clone(),
                record: *record,
            },
            Impact::Spawn { body, at, count, pattern } => Impact::Spawn {
                body: body.clone(),
                at: at.clone(),
                count: count.clone(),
                pattern: pattern.clone(),
            },
            Impact::CastAbility { slot, target, value_scale, cost } => Impact::CastAbility {
                slot: *slot,
                target: target.clone(),
                value_scale: value_scale.clone(),
                cost: *cost,
            },
            Impact::Interrupt { target } => Impact::Interrupt { target: target.clone() },
            Impact::ResolvePending { filter } => Impact::ResolvePending { filter: *filter },
            Impact::Emit { event, target, payload } => Impact::Emit {
                event: *event,
                target: target.clone(),
                payload: payload.clone(),
            },
            Impact::Custom { handler, params, target } => {
                let copy = params.clone();
                assert(copy@ =~= params@);
                Impact::Custom { handler: *handler, params: copy, target: target.clone() }
            },
        }
    }
}

/// A copy of every effect in `v`, in order.
pub fn clone_impacts(v: &Vec<Impact>) -> (r: Vec<Impact>)
    ensures
        impacts_same(r@, v@),
    decreases v,
{
    let mut out: Vec<Impact> = Vec::new();
    let mut i: usize = 0;
    while i < v.len()
        invariant
            i <= v@.len(),
            impacts_same(out@, v@.take(i as int)),
        decreases v@.len() - i,
    {
        proof {
            assert(decreases_to!(v => v@));
            assert(decreases_to!(v@ => v@[i as int]));
        }
        let c = v[i].clone();
        let ghost before = out@;
        out.push(c);
        assert forall|k: int| 0 <= k < out@.len() implies impact_same(#[trigger] out@[k], v@.take(i + 1)[k]) by {
            if k < i {
                assert(impact_same(before[k], v@.take(i as int)[k]));
            }
        }
        i = i + 1;
    }
    assert(v@.take(i as int) =~= v@);
    out
}

} // verus!
