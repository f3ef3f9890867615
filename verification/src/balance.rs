//! Balance helpers: numbers stated as shares of a mod's own baseline curves,
//! so a whole kit re-balances by editing three curves.
//!
//! A [`Share`] is a fraction; `share_of` scales an expression by it, and a share
//! of exactly one is the expression itself. [`Baseline`] declares the three
//! reference curves (health, move speed, cooldown) and reads them at the
//! unit's level.

use vstd::prelude::*;

use crate::context::{ModContext, NameTable};
use crate::descriptors::Curve;
use crate::ids::{CurveId, Handle};
use crate::interner::{index_of, interned};
use crate::math::{BinOp, Value, Var};
use crate::scalar::Scalar;

verus! {

/// The bit pattern of `1.0`.
pub open spec fn one_bits() -> u32 {
    0x3f80_0000
}

/// A fraction of a whole (`1.0` is all of it).
#[derive(Clone, Copy, PartialEq, Debug)]
pub struct Share(Scalar);

impl Share {
    /// The share holding `fraction` of a whole.
    pub fn from_fraction(fraction: Scalar) -> (r: Self)
        ensures
            r.fraction_spec() == fraction,
    {
        Share(fraction)
    }

    /// The fraction this share stands for.
    pub closed spec fn fraction_spec(self) -> Scalar {
        self.0
    }

    /// The fraction this share stands for.
    pub fn fraction(self) -> (r: Scalar)
        ensures
            r == self.fraction_spec(),
    {
        self.0
    }
}

/// The expression for `share` of `whole`: `whole` itself for a share of exactly
/// one, otherwise the share times `whole`.
pub open spec fn share_of_spec(share: Share, whole: Value) -> Value {
    if share.fraction_spec().bits == one_bits() {
        whole
    } else {
        Value::Bin(BinOp::Mul, Box::new(Value::Const(share.fraction_spec())), Box::new(whole))
    }
}

/// `share` of `whole`, as an expression.
pub fn share_of(share: Share, whole: Value) -> (r: Value)
    ensures
        r == share_of_spec(share, whole),
{
    if share.0.bits == 0x3f80_0000 {
        return whole;
    }
    Value::Bin(BinOp::Mul, Box::new(Value::Const(share.0)), Box::new(whole))
}

/// A curve that is `value` at every level: one control point at zero.
pub fn flat(value: Scalar) -> (r: Curve)
    ensures
        r.points@.len() == 1,
        r.points@[0]@ == seq![Scalar::zero_spec(), value],
{
    let p = [Scalar::zero(), value];
    assert(p@ =~= seq![Scalar::zero_spec(), value]);
    let mut points: Vec<[Scalar; 2]> = Vec::new();
    points.push(p);
    Curve { points }
}

/// The three reference curves a mod balances against.
#[derive(Clone, PartialEq, Debug)]
pub struct BaselineSpec {
    pub health: Curve,
    pub move_speed: Curve,
    pub cooldown: Curve,
}

/// Handles to a mod's declared reference curves.
#[derive(Clone, Copy, PartialEq, Eq, Structural, Debug)]
pub struct Baseline {
    health: CurveId,
    move_speed: CurveId,
    cooldown: CurveId,
}

/// `curve` read at the unit's level.
pub open spec fn at_level_spec(curve: CurveId) -> Value {
    Value::Curve(curve, Box::new(Value::Read(Var::Level)))
}

/// `curve` read at the unit's level.
fn at_level(curve: CurveId) -> (r: Value)
    ensures
        r == at_level_spec(curve),
{
    Value::Curve(curve, Box::new(Value::Read(Var::Level)))
}

impl Baseline {
    /// The curve behind health (and so behind damage and healing).
    pub closed spec fn health_curve(self) -> CurveId {
        self.health
    }

    /// The curve behind movement speed.
    pub closed spec fn move_speed_curve(self) -> CurveId {
        self.move_speed
    }

    /// The curve behind cooldowns.
    pub closed spec fn cooldown_curve(self) -> CurveId {
        self.cooldown
    }

    /// Declare the three reference curves in `ctx` as `baseline.health`,
    /// `baseline.move_speed` and `baseline.cooldown`, in that order.
    pub fn declare(ctx: &mut ModContext, spec: BaselineSpec) -> (r: Self)
        requires
            old(ctx).wf(),
            !old(ctx).names(NameTable::Curves).contains("baseline.health"@),
            !old(ctx).names(NameTable::Curves).contains("baseline.move_speed"@),
            !old(ctx).names(NameTable::Curves).contains("baseline.cooldown"@),
            old(ctx).names(NameTable::Curves).len() + 3 <= CurveId::max_raw_spec() + 1,
        ensures
            final(ctx).wf(),
            final(ctx).names(NameTable::Curves) == old(ctx).names(NameTable::Curves).push("baseline.health"@).push(
                "baseline.move_speed"@,
            ).push("baseline.cooldown"@),
            r.health_curve().0 == old(ctx).names(NameTable::Curves).len(),
            r.move_speed_curve().0 == old(ctx).names(NameTable::Curves).len() + 1,
            r.cooldown_curve().0 == old(ctx).names(NameTable::Curves).len() + 2,
            final(ctx).curves_spec() == old(ctx).curves_spec().push(spec.health).push(spec.move_speed).push(spec.cooldown),
            forall|u: NameTable| u != NameTable::Curves ==> final(ctx).names(u) == old(ctx).names(u),
            final(ctx).abilities_spec() == old(ctx).abilities_spec(),
            final(ctx).talents_spec() == old(ctx).talents_spec(),
            final(ctx).buffs_spec() == old(ctx).buffs_spec(),
            final(ctx).tag_classes_spec() == old(ctx).tag_classes_spec(),
    {
        proof {
            reveal_strlit("baseline.health");
            reveal_strlit("baseline.move_speed");
            reveal_strlit("baseline.cooldown");
        }
        let ghost c0 = ctx.curves_spec();
        let ghost n0 = ctx.names(NameTable::Curves);
        let health = ctx.curve("baseline.health", spec.health);
        proof {
            assert("baseline.move_speed"@.len() != "baseline.health"@.len());
            assert("baseline.cooldown"@.len() != "baseline.health"@.len());
            assert("baseline.cooldown"@.len() != "baseline.move_speed"@.len());
            assert(ctx.names(NameTable::Curves) == n0.push("baseline.health"@));
            assert(!ctx.names(NameTable::Curves).contains("baseline.move_speed"@)) by {
                if ctx.names(NameTable::Curves).contains("baseline.move_speed"@) {
                    let k = choose|k: int| 0 <= k < ctx.names(NameTable::Curves).len() && ctx.names(NameTable::Curves)[k] == "baseline.move_speed"@;
                    if k < n0.len() {
                        assert(n0.contains("baseline.move_speed"@));
                    }
                }
            }
        }
        let move_speed = ctx.curve("baseline.move_speed", spec.move_speed);
        proof {
            let n1 = n0.push("baseline.health"@);
            assert(ctx.names(NameTable::Curves) == n1.push("baseline.move_speed"@));
            assert(!ctx.names(NameTable::Curves).contains("baseline.cooldown"@)) by {
                if ctx.names(NameTable::Curves).contains("baseline.cooldown"@) {
                    let k = choose|k: int| 0 <= k < ctx.names(NameTable::Curves).len() && ctx.names(NameTable::Curves)[k] == "baseline.cooldown"@;
                    if k < n0.len() {
                        assert(n0.contains("baseline.cooldown"@));
                    }
                }
            }
        }
        let cooldown = ctx.curve("baseline.cooldown", spec.cooldown);
        proof {
            let c3 = ctx.curves_spec();
            assert(c3 =~= c0.push(spec.health).push(spec.move_speed).push(spec.cooldown));
        }
        Baseline { health, move_speed, cooldown }
    }

    /// `share` of the baseline health at the unit's level.
    pub fn health(&self, share: Share) -> (r: Value)
        ensures
            r == share_of_spec(share, at_level_spec(self.health_curve())),
    {
        share_of(share, at_level(self.health))
    }

    /// `share` of the baseline health: damage is measured against health.
    pub fn damage(&self, share: Share) -> (r: Value)
        ensures
            r == share_of_spec(share, at_level_spec(self.health_curve())),
    {
        self.health(share)
    }

    /// `share` of the baseline health: healing is measured against health.
    pub fn heal(&self, share: Share) -> (r: Value)
        ensures
            r == share_of_spec(share, at_level_spec(self.health_curve())),
    {
        self.health(share)
    }

    /// `share` of the baseline movement speed at the unit's level.
    pub fn move_speed(&self, share: Share) -> (r: Value)
        ensures
            r == share_of_spec(share, at_level_spec(self.move_speed_curve())),
    {
        share_of(share, at_level(self.move_speed))
    }

    /// `share` of the baseline cooldown at the unit's level.
    pub fn cooldown(&self, share: Share) -> (r: Value)
        ensures
            r == share_of_spec(share, at_level_spec(self.cooldown_curve())),
    {
        share_of(share, at_level(self.cooldown))
    }
}

/// A share of exactly one is the whole: scaling by it leaves the expression
/// untouched.
pub proof fn law_whole_share_is_identity(share: Share, whole: Value)
    requires
        share.fraction_spec().bits == one_bits(),
    ensures
        share_of_spec(share, whole) == whole,
{
}

/// Any share other than exactly one scales the whole: the result is the
/// product of the share's fraction and the whole, whether the fraction is
/// below one, above it (150% of a value is half as much again) or negative.
/// Only the bit pattern of `1.0` itself hands the whole back unchanged.
pub proof fn law_other_shares_scale_the_whole(share: Share, whole: Value)
    requires
        share.fraction_spec().bits != 0x3f80_0000u32,
    ensures
        share_of_spec(share, whole) == Value::Bin(
            BinOp::Mul,
            Box::new(Value::Const(share.fraction_spec())),
            Box::new(whole),
        ),
        share_of_spec(share, whole) != whole,
{
}

/// Two shares of one whole give the same expression only when they are the
/// same share: no two distinct fractions collapse to one answer.
pub proof fn law_distinct_shares_differ(a: Share, b: Share, whole: Value)
    requires
        a.fraction_spec() != b.fraction_spec(),
    ensures
        share_of_spec(a, whole) != share_of_spec(b, whole),
{
    if a.fraction_spec().bits == 0x3f80_0000u32 && b.fraction_spec().bits != 0x3f80_0000u32 {
        law_other_shares_scale_the_whole(b, whole);
    } else if b.fraction_spec().bits == 0x3f80_0000u32 && a.fraction_spec().bits != 0x3f80_0000u32 {
        law_other_shares_scale_the_whole(a, whole);
    }
}

} // verus!
