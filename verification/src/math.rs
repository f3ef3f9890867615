//! The `Value` expression language. Numbers in the ISA are *expressions*, not
//! enum variants: formulas over a small, generic, read-only projection of state
//! ([`Var`]). Only `Var` ever grows; the vocabulary of operations is fixed.
//!
//! Evaluating an expression is floating-point work done by the engine; the
//! library carries, inspects and remaps expressions.

use vstd::prelude::*;

use crate::ids::{BuffId, CurveId, ResourceId, StackId, StatId};
use crate::remap::{IdMap, RemapIds};
use crate::scalar::Scalar;
use crate::slot_ref::SlotRef;

verus! {

/// Whose state a [`Var`] projects. `Source` is the effect origin (e.g. the owner
/// of an in-flight missile), distinct from the immediate caster.
#[derive(Clone, Copy, PartialEq, Eq, Structural, Hash, Debug)]
pub enum Who {
    Caster,
    Target,
    Source,
}

/// Whose doing an effect was — the origin half of a membership question.
/// `Anyone` asks the unsourced question; `By` restricts it to what one of the
/// resolution's own actors applied.
#[derive(Clone, Copy, PartialEq, Eq, Structural, Hash, Debug)]
pub enum Origin {
    Anyone,
    By(Who),
}

/// The fixed set of binary operators. Division is guarded by the evaluator.
#[derive(Clone, Copy, PartialEq, Eq, Structural, Hash, Debug)]
pub enum BinOp {
    Add,
    Sub,
    Mul,
    Div,
    Min,
    Max,
}

/// A generic, read-only projection of simulation state. The only vocabulary
/// permitted to grow, and only by appending: the variant order is the wire tag.
#[derive(Clone, Copy, PartialEq, Eq, Structural, Debug)]
pub enum Var {
    Level,
    MaxHp(Who),
    CurHp(Who),
    MissingHp(Who),
    HpRatio(Who),
    MissingHpRatio(Who),
    Stat(StatId, Who),
    Resource(ResourceId, Who),
    StackCount(StackId, Who),
    BuffStacks(BuffId, Who),
    /// Charges of the ability in a slot.
    ChargesOf(SlotRef, Who),
    /// Remaining cooldown of the ability in a slot.
    CooldownOf(SlotRef, Who),
    AllyCount,
    EnemyCount,
    DistanceToTarget,
    /// Channel completion in `[0, 1]`.
    ChannelProgress,
    /// A seeded, deterministic PRNG read in `[0, 1]`.
    Rand01,
    /// How much a stack counter has gained this tick.
    StackGain(StackId, Who),
    /// Stacks of a buff on `who`, counting only the ones [`Origin`] applied.
    BuffStacksFrom(BuffId, Who, Origin),
    /// The magnitude of the event a reaction is running from.
    EventMagnitude,
    /// Which pass of the innermost enclosing loop is running, from zero.
    LoopIndex,
}

/// A numeric expression: a fixed operator vocabulary over [`Var`] projections.
#[derive(PartialEq, Debug)]
pub enum Value {
    Const(Scalar),
    Read(Var),
    Bin(BinOp, Box<Value>, Box<Value>),
    Clamp { v: Box<Value>, lo: Box<Value>, hi: Box<Value> },
    /// Table lookup (e.g. a level-scaling curve) applied to a sub-expression.
    Curve(CurveId, Box<Value>),
    /// The ambient `value_scale` multiplier threaded through nested casts.
    ScaleCtx,
}

impl Clone for Value {
    fn clone(&self) -> (r: Self)
        ensures
            r == *self,
        decreases self,
    {
        match self {
            Value::Const(c) => Value::Const(*c),
            Value::Read(var) => Value::Read(*var),
            Value::Bin(op, a, b) => Value::Bin(*op, Box::new((**a).clone()), Box::new((**b).clone())),
            Value::Clamp { v, lo, hi } => Value::Clamp {
                v: Box::new((**v).clone()),
                lo: Box::new((**lo).clone()),
                hi: Box::new((**hi).clone()),
            },
            Value::Curve(id, x) => Value::Curve(*id, Box::new((**x).clone())),
            Value::ScaleCtx => Value::ScaleCtx,
        }
    }
}

impl Value {
    /// Whether this expression is already a bare constant (e.g. after freezing).
    pub fn is_const(&self) -> (r: bool)
        ensures
            r == (*self is Const),
    {
        match self {
            Value::Const(_) => true,
            _ => false,
        }
    }
}

/// A successful walk over a [`Var`] translates the one interned handle it
/// holds through that handle's own family of the map, and keeps everything
/// else: whose state it reads, the origin filter, and every variant that
/// holds no handle.
pub proof fn law_a_var_walk_translates_its_handle<M: IdMap>(v: Var, m: &M, new: Var)
    requires
        v.remaps_to(m, new),
    ensures
        v matches Var::Stat(id, who) ==> m.stat_spec(id) is Ok && new == Var::Stat(m.stat_spec(id)->Ok_0, who),
        v matches Var::Resource(id, who) ==> m.resource_spec(id) is Ok && new == Var::Resource(
            m.resource_spec(id)->Ok_0,
            who,
        ),
        v matches Var::StackCount(id, who) ==> m.stack_spec(id) is Ok && new == Var::StackCount(
            m.stack_spec(id)->Ok_0,
            who,
        ),
        v matches Var::BuffStacks(id, who) ==> m.buff_spec(id) is Ok && new == Var::BuffStacks(
            m.buff_spec(id)->Ok_0,
            who,
        ),
        v matches Var::ChargesOf(r, who) ==> m.slot_ref_spec(r) is Ok && new == Var::ChargesOf(
            m.slot_ref_spec(r)->Ok_0,
            who,
        ),
        v matches Var::CooldownOf(r, who) ==> m.slot_ref_spec(r) is Ok && new == Var::CooldownOf(
            m.slot_ref_spec(r)->Ok_0,
            who,
        ),
        v matches Var::StackGain(id, who) ==> m.stack_spec(id) is Ok && new == Var::StackGain(
            m.stack_spec(id)->Ok_0,
            who,
        ),
        v matches Var::BuffStacksFrom(id, who, origin) ==> m.buff_spec(id) is Ok && new == Var::BuffStacksFrom(
            m.buff_spec(id)->Ok_0,
            who,
            origin,
        ),
        !(v is Stat || v is Resource || v is StackCount || v is BuffStacks || v is ChargesOf || v is CooldownOf
            || v is StackGain || v is BuffStacksFrom) ==> new == v,
{
}

/// A walk over a [`Var`] fails exactly when the map refuses the handle it
/// holds, with the map's own error; a variant that holds no handle never
/// fails.
pub proof fn law_a_var_walk_fails_with_its_handle<M: IdMap>(v: Var, m: &M)
    ensures
        v matches Var::Stat(id, _) ==> v.remap_check(m) == match m.stat_spec(id) {
            Ok(_) => Ok(()),
            Err(e) => Err(e),
        },
        v matches Var::Resource(id, _) ==> v.remap_check(m) == match m.resource_spec(id) {
            Ok(_) => Ok(()),
            Err(e) => Err(e),
        },
        v matches Var::StackCount(id, _) ==> v.remap_check(m) == match m.stack_spec(id) {
            Ok(_) => Ok(()),
            Err(e) => Err(e),
        },
        v matches Var::BuffStacks(id, _) ==> v.remap_check(m) == match m.buff_spec(id) {
            Ok(_) => Ok(()),
            Err(e) => Err(e),
        },
        v matches Var::ChargesOf(r, _) ==> v.remap_check(m) == match m.slot_ref_spec(r) {
            Ok(_) => Ok(()),
            Err(e) => Err(e),
        },
        v matches Var::CooldownOf(r, _) ==> v.remap_check(m) == match m.slot_ref_spec(r) {
            Ok(_) => Ok(()),
            Err(e) => Err(e),
        },
        v matches Var::StackGain(id, _) ==> v.remap_check(m) == match m.stack_spec(id) {
            Ok(_) => Ok(()),
            Err(e) => Err(e),
        },
        v matches Var::BuffStacksFrom(id, _, _) ==> v.remap_check(m) == match m.buff_spec(id) {
            Ok(_) => Ok(()),
            Err(e) => Err(e),
        },
        !(v is Stat || v is Resource || v is StackCount || v is BuffStacks || v is ChargesOf || v is CooldownOf
            || v is StackGain || v is BuffStacksFrom) ==> v.remap_check(m) is Ok,
{
}

/// Walking an expression that reads a [`Var`] walks the [`Var`]: a
/// successful walk gives a read of the translated variable, and the walk
/// fails exactly as the variable's does.
pub proof fn law_a_read_walks_its_var<M: IdMap>(v: Var, m: &M, new: Value)
    ensures
        Value::Read(v).remap_check(m) is Err <==> v.remap_check(m) is Err,
        Value::Read(v).remaps_to(m, new) ==> (new matches Value::Read(w) && v.remaps_to(m, w)),
{
}

/// A successful walk over an expression keeps its shape and its constants:
/// a curve lookup has its curve handle translated through the map's curve
/// family, every variable read is walked as a [`Var`], and every operator,
/// constant and sub-expression position stays where it was.
pub proof fn law_a_value_walk_keeps_its_shape<M: IdMap>(v: Value, m: &M, new: Value)
    requires
        v.remaps_to(m, new),
    ensures
        v matches Value::Const(c) ==> new == Value::Const(c),
        v is ScaleCtx ==> new is ScaleCtx,
        v matches Value::Read(x) ==> (new matches Value::Read(y) && x.remaps_to(m, y)),
        v matches Value::Bin(op, a, b) ==> (new matches Value::Bin(op2, a2, b2) && op2 == op && (*a).remaps_to(m, *a2)
            && (*b).remaps_to(m, *b2)),
        v matches Value::Curve(id, x) ==> m.curve_spec(id) is Ok && (new matches Value::Curve(id2, y) && id2
            == m.curve_spec(id)->Ok_0 && (*x).remaps_to(m, *y)),
{
}

/// A walk over a curve lookup fails with the map's error when the map refuses
/// the curve handle, before the sub-expression is looked at; otherwise it
/// fails exactly as the sub-expression does. A binary expression fails with
/// its left side's error first, then its right side's.
pub proof fn law_a_value_walk_fails_in_order<M: IdMap>(v: Value, m: &M)
    ensures
        v matches Value::Curve(id, x) ==> v.remap_check(m) == match m.curve_spec(id) {
            Ok(_) => (*x).remap_check(m),
            Err(e) => Err(e),
        },
        v matches Value::Bin(op, a, b) ==> v.remap_check(m) == (if (*a).remap_check(m) is Err {
            (*a).remap_check(m)
        } else {
            (*b).remap_check(m)
        }),
        v is Const || v is ScaleCtx ==> v.remap_check(m) is Ok,
{
    if let Value::Curve(id, x) = v {
        lemma_ok_is_unit((*x).remap_check(m));
    }
    if let Value::Bin(op, a, b) = v {
        lemma_ok_is_unit((*b).remap_check(m));
    }
}

/// A successful outcome that carries nothing is the one such outcome.
proof fn lemma_ok_is_unit<E>(r: Result<(), E>)
    ensures
        r is Ok ==> r == Ok::<(), E>(()),
{
    if let Ok(u) = r {
        assert(u == ());
    }
}

} // verus!
