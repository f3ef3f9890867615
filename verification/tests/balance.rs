use stormlight_mod::balance::{flat, share_of, Baseline, BaselineSpec, Share};
use stormlight_mod::context::ModContext;
use stormlight_mod::descriptors::Curve;
use stormlight_mod::ids::CurveId;
use stormlight_mod::math::{BinOp, Value, Var};
use stormlight_mod::scalar::Scalar;

fn s(x: f32) -> Scalar {
    Scalar::from_bits(x.to_bits())
}

fn curve(points: &[(f32, f32)]) -> Curve {
    Curve { points: points.iter().map(|&(x, y)| [s(x), s(y)]).collect() }
}

#[test]
fn declaring_registers_exactly_the_mods_own_curves() {
    let spec = BaselineSpec {
        health: curve(&[(0.0, 500.0), (20.0, 2500.0)]),
        move_speed: curve(&[(0.0, 6.0)]),
        cooldown: curve(&[(1.0, 8.0), (10.0, 6.0)]),
    };
    let mut ctx = ModContext::new();
    Baseline::declare(&mut ctx, spec.clone());
    let reg = ctx.finish();
    let expected = [
        ("baseline.health", spec.health),
        ("baseline.move_speed", spec.move_speed),
        ("baseline.cooldown", spec.cooldown),
    ];
    assert_eq!(reg.curves.len(), expected.len(), "the SDK registered a curve of its own");
    for (name, c) in expected {
        let index = reg.names.curves.iter().position(|n| n == name).expect(name);
        assert_eq!(reg.curves[index], c, "{name} is not the curve the mod declared");
    }
}

#[test]
fn one_hundred_percent_is_the_baseline_curve_itself() {
    let mut ctx = ModContext::new();
    let base = Baseline::declare(
        &mut ctx,
        BaselineSpec { health: flat(s(100.0)), move_speed: flat(s(5.0)), cooldown: flat(s(3.0)) },
    );
    let whole = Share::from_fraction(s(1.0));
    let at_level = |id: u16| Value::Curve(CurveId(id), Box::new(Value::Read(Var::Level)));
    assert_eq!(base.health(whole), at_level(0));
    assert_eq!(base.move_speed(whole), at_level(1));
    assert_eq!(base.cooldown(whole), at_level(2));
    assert_eq!(base.damage(whole), base.health(whole));
    assert_eq!(base.heal(whole), base.health(whole));
}

#[test]
fn a_partial_share_scales_the_whole() {
    let half = Share::from_fraction(s(0.5));
    let whole = Value::Const(s(80.0));
    assert_eq!(
        share_of(half, whole.clone()),
        Value::Bin(BinOp::Mul, Box::new(Value::Const(s(0.5))), Box::new(whole))
    );
    assert_eq!(half.fraction(), s(0.5));
}

#[test]
fn a_flat_curve_has_one_point_at_level_zero() {
    let c = flat(s(42.0));
    assert_eq!(c.points, vec![[s(0.0), s(42.0)]]);
}
