use stormlight_mod::abilities::{AimShape, Params, Targeting};
use stormlight_mod::common::{Affiliation, TargetFilter};
use stormlight_mod::ids::{CurveId, Handle, ParamId, StatId, TagId};
use stormlight_mod::impacts::{DamageFlags, Impact};
use stormlight_mod::interner::Interner;
use stormlight_mod::math::{Value, Var};
use stormlight_mod::progression::{ProgressionSpec, XpBounty, XpShare, XpSource, XpTrigger};
use stormlight_mod::respawn::RespawnSpec;
use stormlight_mod::runtime::{GuestEffects, TickContext};
use stormlight_mod::scalar::Scalar;
use stormlight_mod::stats;

fn s(x: f32) -> Scalar {
    Scalar::from_bits(x.to_bits())
}

#[test]
fn scalar_comparisons_follow_ieee() {
    let vals = [-f32::INFINITY, -2.5, -0.0, 0.0, 1.0e-40, 3.0, f32::INFINITY, f32::NAN];
    for &a in &vals {
        for &b in &vals {
            assert_eq!(s(a).lt(s(b)), a < b, "{a} < {b}");
            assert_eq!(s(a).le(s(b)), a <= b, "{a} <= {b}");
        }
        assert_eq!(s(a).is_finite(), a.is_finite());
        assert_eq!(s(a).is_nan(), a.is_nan());
        assert_eq!(s(a).is_negative(), a < 0.0);
        assert_eq!(s(a).is_positive(), a > 0.0);
    }
}

#[test]
fn the_interner_is_dense_idempotent_and_resolvable() {
    let mut i: Interner<StatId> = Interner::new();
    assert!(i.is_empty());
    let a = i.intern("move_speed");
    let b = i.intern("power");
    assert_eq!(i.intern("move_speed"), a);
    assert_eq!((a.raw(), b.raw()), (0, 1));
    assert_eq!(i.len(), 2);
    assert_eq!(i.get("power"), Some(b));
    assert_eq!(i.get("armor"), None);
    assert_eq!(i.resolve(b), Some("power"));
    assert_eq!(i.resolve(StatId(9)), None);
    assert_eq!(StatId::from_raw(7).raw(), 7);
    assert_eq!(StatId::max_raw(), 0xffff);
}

#[test]
fn a_handle_outlives_any_number_of_later_interns() {
    let mut i: Interner<StatId> = Interner::new();
    let a = i.intern("armor");
    let names = ["haste", "armor", "power", "haste", "crit", "armor", "block"];
    for n in names {
        i.intern(n);
    }
    assert_eq!(i.resolve(a), Some("armor"));
    assert_eq!(i.get("armor"), Some(a));
    assert_eq!(i.len(), 5);
    let block = i.get("block").unwrap();
    assert_eq!(block.raw(), 4);
    assert_eq!(i.resolve(StatId(5)), None);
    assert_eq!(i.resolve(StatId(4)), Some("block"));
}

#[test]
fn reserved_stat_names_have_fixed_indices() {
    assert_eq!(stats::reserved_index(stats::RESERVED[0]), Some(0));
    assert_eq!(stats::reserved_index("definitely_not_reserved"), None);
}

#[test]
fn params_find_their_first_binding() {
    let p = Params(vec![(ParamId(1), Value::Const(s(2.0))), (ParamId(1), Value::Const(s(9.0)))]);
    assert_eq!(p.get(ParamId(1)), Some(&Value::Const(s(2.0))));
    assert_eq!(p.get(ParamId(2)), None);
}

#[test]
fn targeting_admits_one_aim_shape() {
    let filter = TargetFilter { affiliation: Affiliation::Enemies, require_tags: vec![TagId(1)], exclude_tags: Vec::new(), include_dead: false };
    let unit = Targeting::Unit { filter: filter.clone() };
    assert_eq!(unit.shape(), AimShape::Unit);
    assert_eq!(unit.filter(), Some(&filter));
    assert_eq!(Targeting::SelfCast.shape(), AimShape::Untargeted);
    assert_eq!(Targeting::NoTarget.shape(), AimShape::Untargeted);
    assert_eq!(Targeting::Point.shape(), AimShape::Point);
    assert_eq!(Targeting::Vector.filter(), None);
}

#[test]
fn combinators_are_told_from_leaves() {
    let leaf = Impact::Damage {
        amount: Value::Const(s(1.0)),
        dtype: stormlight_mod::ids::DamageTypeId(0),
        target: Default::default(),
        flags: DamageFlags::default(),
    };
    assert!(!leaf.is_combinator());
    assert!(Impact::Delay { secs: Value::ScaleCtx, inner: vec![leaf] }.is_combinator());
    assert!(Value::Const(s(1.0)).is_const());
    assert!(!Value::Read(Var::Level).is_const());
    assert!(!Value::Curve(CurveId(0), Box::new(Value::ScaleCtx)).is_const());
}

#[test]
fn progression_clamps_its_levels() {
    let mut p = ProgressionSpec::bounty_only(XpBounty::worth(Value::Const(s(50.0))));
    assert_eq!((p.ceiling(), p.start()), (1, 1));
    p.max_level = 0;
    assert_eq!(p.ceiling(), 1);
    p.max_level = 10;
    p.starting_level = 0;
    assert_eq!(p.start(), 1);
    p.starting_level = 30;
    assert_eq!(p.start(), 10);
    p.starting_level = 4;
    assert_eq!(p.start(), 4);
    assert!(p.grants_at(2).is_empty());
    let bounty = XpBounty { amount: Value::Const(s(1.0)), share: XpShare::Killer, credit_window: Some(s(-3.0)) };
    assert_eq!(bounty.window(), Some(s(0.0)));
    let bounty = XpBounty { credit_window: Some(s(f32::INFINITY)), ..bounty };
    assert_eq!(bounty.window(), None);
    let timed = XpSource { trigger: XpTrigger::Timed { period: s(5.0) }, amount: Value::ScaleCtx };
    assert_eq!(timed.period(), Some(s(5.0)));
    let broken = XpSource { trigger: XpTrigger::Timed { period: s(0.0) }, amount: Value::ScaleCtx };
    assert_eq!(broken.period(), None);
}

#[test]
fn respawn_delays_are_never_negative() {
    assert_eq!(RespawnSpec::after(s(-4.0)).seconds(), s(0.0));
    assert_eq!(RespawnSpec::after(s(12.0)).seconds(), s(12.0));
    assert_eq!(RespawnSpec::after(s(f32::NAN)).seconds(), s(0.0));
}

#[test]
fn guest_effects_hold_what_they_are_given() {
    assert!(GuestEffects::none().effects.is_empty());
    assert_eq!(GuestEffects::new(Vec::new()), GuestEffects::none());
    assert_eq!(TickContext::default().tick, 0);
}
