use stormlight_mod::ids::Slot;
use stormlight_mod::scalar::Scalar;
use stormlight_mod::ui::{Style, Sweep, SweepDirection};
use stormlight_mod::widgets::{ability_slot, icon, WidgetExt};

fn s(x: f32) -> Scalar {
    Scalar::from_bits(x.to_bits())
}

#[test]
fn a_slot_sweeps_without_being_asked_to() {
    let slot = ability_slot(Slot(0), "Q");
    assert_eq!(slot.style.sweep, Sweep::default());
    assert!(slot.style.sweep.is_drawn(), "a slot built by the pdk draws no cooldown at all");
}

#[test]
fn declaring_a_sweep_changes_the_sweep_and_nothing_else() {
    for rgba in [[0u8, 0, 0, 0], [255, 128, 7, 200], [1, 2, 3, 4]] {
        for counter in [false, true] {
            for on_a_slot in [false, true] {
                let color = rgba.map(|v| s(f32::from(v) / 255.0));
                let direction = if counter { SweepDirection::CounterClockwise } else { SweepDirection::Clockwise };
                let warm = [s(1.0), s(0.5), s(0.25), s(1.0)];
                let base = if on_a_slot {
                    ability_slot(Slot(1), "W").color(warm).image("mod://pack/bolt.png")
                } else {
                    icon("mod://pack/bolt.png").color(warm)
                };
                let after = base.clone().sweep(color, direction);
                assert_eq!(after.style.sweep, Sweep { color, direction });
                assert_eq!(Style { sweep: base.style.sweep, ..after.style.clone() }, base.style);
                assert_eq!(after.layout, base.layout);
                assert_eq!(after.kind, base.kind);
            }
        }
    }
}
