use stormlight_mod::behaviors::{canonical_values, total_le, winning_override, ModOp, ResolvedModifier};
use stormlight_mod::scalar::Scalar;

fn num(x: f32) -> Scalar {
    Scalar::from_bits(x.to_bits())
}

fn m(op: ModOp, value: f32, priority: i32) -> ResolvedModifier {
    ResolvedModifier { op, value: num(value), priority }
}

fn bits(v: &[Scalar]) -> Vec<u32> {
    v.iter().map(|s| s.bits).collect()
}

#[test]
fn total_order_places_negative_zero_before_zero_and_nans_at_the_ends() {
    let order = [f32::from_bits(0xffc0_0000), f32::NEG_INFINITY, -2.0, -0.0, 0.0, 1.5, f32::INFINITY, f32::NAN];
    for (i, a) in order.iter().enumerate() {
        for (j, b) in order.iter().enumerate() {
            assert_eq!(total_le(num(*a), num(*b)), i <= j, "{a} vs {b}");
            assert_eq!(total_le(num(*a), num(*b)), a.total_cmp(b) != std::cmp::Ordering::Greater);
        }
    }
}

#[test]
fn no_override_is_none() {
    let mods = [m(ModOp::AddFlat, 3.0, 9), m(ModOp::Mul, 2.0, 9)];
    assert_eq!(winning_override(&mods), None);
    assert_eq!(winning_override(&[]), None);
}

#[test]
fn the_highest_priority_override_wins_then_the_larger_value() {
    let mods = [
        m(ModOp::Override, 100.0, 1),
        m(ModOp::AddFlat, 5.0, 7),
        m(ModOp::Override, 2.0, 3),
        m(ModOp::Override, 7.0, 3),
        m(ModOp::Override, 1000.0, 2),
    ];
    assert_eq!(winning_override(&mods), Some(m(ModOp::Override, 7.0, 3)));
    // Equal priority and equal value: the first one read stays.
    let tie = [m(ModOp::Override, 4.0, 0), m(ModOp::Override, 4.0, 0)];
    assert_eq!(winning_override(&tie), Some(m(ModOp::Override, 4.0, 0)));
}

#[test]
fn values_of_a_kind_come_out_sorted_in_total_order() {
    let mods = [
        m(ModOp::AddFlat, 3.0, 0),
        m(ModOp::AddPct, 0.5, 0),
        m(ModOp::AddFlat, -1.0, 0),
        m(ModOp::AddFlat, 0.0, 0),
        m(ModOp::AddFlat, -0.0, 0),
        m(ModOp::AddFlat, 3.0, 5),
    ];
    assert_eq!(
        bits(&canonical_values(&mods, ModOp::AddFlat)),
        vec![(-1.0f32).to_bits(), (-0.0f32).to_bits(), 0.0f32.to_bits(), 3.0f32.to_bits(), 3.0f32.to_bits()]
    );
    assert_eq!(bits(&canonical_values(&mods, ModOp::AddPct)), vec![0.5f32.to_bits()]);
    assert!(canonical_values(&mods, ModOp::Mul).is_empty());
}

#[test]
fn any_order_of_the_same_modifiers_decides_the_same() {
    let base = [
        m(ModOp::AddFlat, 0.1, 0),
        m(ModOp::AddFlat, 0.2, 1),
        m(ModOp::AddFlat, 1e8, 0),
        m(ModOp::Mul, 1.1, 0),
        m(ModOp::Mul, 0.9, 2),
        m(ModOp::AddPct, -0.25, 0),
        m(ModOp::Override, 5.0, 1),
        m(ModOp::Override, 6.0, 1),
    ];
    let reference_override = winning_override(&base);
    let reference: Vec<Vec<u32>> =
        [ModOp::AddFlat, ModOp::AddPct, ModOp::Mul].iter().map(|op| bits(&canonical_values(&base, *op))).collect();
    let mut perm = base.to_vec();
    for shift in 0..base.len() {
        perm.rotate_left(1);
        if shift % 2 == 0 {
            perm.reverse();
        }
        assert_eq!(winning_override(&perm), reference_override);
        for (k, op) in [ModOp::AddFlat, ModOp::AddPct, ModOp::Mul].iter().enumerate() {
            assert_eq!(bits(&canonical_values(&perm, *op)), reference[k]);
        }
    }
    assert_eq!(reference_override, Some(m(ModOp::Override, 6.0, 1)));
}
