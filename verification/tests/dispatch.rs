use stormlight_mod::common::ImpactTarget;
use stormlight_mod::context::ModContext;
use stormlight_mod::descriptors::Registration;
use stormlight_mod::dispatch::Dispatch;
use stormlight_mod::handlers::HandlerCall;
use stormlight_mod::ids::{DamageTypeId, EventId, HandlerId};
use stormlight_mod::impacts::{DamageFlags, HealFlags, Impact};
use stormlight_mod::math::Value;
use stormlight_mod::runtime::{GuestEffects, TickContext, TriggerContext};
use stormlight_mod::scalar::Scalar;

type HandlerFn = Box<dyn Fn(&HandlerCall) -> GuestEffects>;
type TickFn = Box<dyn Fn(&TickContext) -> GuestEffects>;
type TriggerFn = Box<dyn Fn(&TriggerContext) -> GuestEffects>;

const TRIGGER_EVENT: u16 = 7;

fn num(x: f32) -> Scalar {
    Scalar::from_bits(x.to_bits())
}

/// A mod with all three runtime entry points wired, as a guest's builder wires
/// them: each handler's name interned, its code routed under the handle.
struct Guest {
    ctx: ModContext,
    routes: Dispatch<HandlerFn, TickFn, TriggerFn>,
}

impl Guest {
    fn on_handler(&mut self, name: &str, f: HandlerFn) -> HandlerId {
        let id = self.ctx.handler(name);
        self.routes.bind_handler(id, f);
        id
    }

    fn run_handler(&self, id: HandlerId, call: &HandlerCall) -> GuestEffects {
        self.routes.handler(id).map_or_else(GuestEffects::none, |f| f(call))
    }

    fn run_tick(&self, t: &TickContext) -> GuestEffects {
        self.routes.tick().map_or_else(GuestEffects::none, |f| f(t))
    }

    fn run_trigger(&self, g: &TriggerContext) -> GuestEffects {
        self.routes.trigger(g.event).map_or_else(GuestEffects::none, |f| f(g))
    }
}

fn build() -> Guest {
    let mut m = Guest { ctx: ModContext::new(), routes: Dispatch::new() };
    // Turns its opaque param blob's length into damage, so the blob can be seen
    // to reach the closure intact.
    m.on_handler(
        "blob_to_damage",
        Box::new(|call: &HandlerCall| {
            GuestEffects::new(vec![Impact::Damage {
                amount: Value::Const(num(call.params.len() as f32)),
                dtype: DamageTypeId(0),
                target: ImpactTarget::ResolvedTarget,
                flags: DamageFlags::default(),
            }])
        }),
    );
    // A second handler, so routing must select by id.
    m.on_handler(
        "always_heal",
        Box::new(|_: &HandlerCall| {
            GuestEffects::new(vec![Impact::Heal {
                amount: Value::Const(num(1.0)),
                target: ImpactTarget::Caster,
                flags: HealFlags::default(),
            }])
        }),
    );
    m.routes.set_tick(Box::new(|t: &TickContext| {
        GuestEffects::new(vec![Impact::Emit {
            event: EventId(0),
            target: ImpactTarget::Caster,
            payload: Value::Const(num(t.tick as f32)),
        }])
    }));
    m.routes.add_trigger(
        EventId(TRIGGER_EVENT),
        Box::new(|g: &TriggerContext| {
            GuestEffects::new(vec![Impact::Emit {
                event: g.event,
                target: ImpactTarget::Source,
                payload: g.payload.clone(),
            }])
        }),
    );
    m
}

fn registration() -> Registration {
    build().ctx.finish()
}

/// The `HandlerId`s the builder interns, in declaration order.
fn ids() -> (HandlerId, HandlerId) {
    let reg = registration();
    assert_eq!(reg.names.handlers, ["blob_to_damage", "always_heal"]);
    (HandlerId(0), HandlerId(1))
}

#[test]
fn a_handler_receives_its_param_blob_and_the_right_one_is_selected() {
    let (blob_id, heal_id) = ids();
    let blobs: [Vec<u8>; 4] = [vec![], vec![1], vec![0, 255, 7], vec![9; 300]];
    for params in &blobs {
        let ctx = build();

        let out = ctx.run_handler(blob_id, &HandlerCall { params });
        match out.effects.as_slice() {
            [Impact::Damage { amount: Value::Const(a), .. }] => {
                assert_eq!(f32::from_bits(a.bits), params.len() as f32, "param blob length must reach the closure");
            }
            other => panic!("expected one Damage leaf, got {other:?}"),
        }

        // Same input, different id: the other handler runs.
        let heal = ctx.run_handler(heal_id, &HandlerCall { params });
        assert!(matches!(heal.effects.as_slice(), [Impact::Heal { .. }]));
    }
}

#[test]
fn an_unregistered_selector_yields_no_effects() {
    for raw in [0u32, 1, 2, 3, 6, 7, 8, 1000, 65_543, u32::MAX] {
        let ctx = build();
        if raw > 1 {
            assert!(
                ctx.run_handler(HandlerId(raw), &HandlerCall { params: &[] }).effects.is_empty(),
                "unknown handler id must produce no effects, never panic"
            );
        }
        if raw as u16 != TRIGGER_EVENT {
            let tc = TriggerContext { event: EventId(raw as u16), payload: Value::Const(num(0.0)) };
            assert!(ctx.run_trigger(&tc).effects.is_empty());
        }
    }
}

#[test]
fn tick_and_trigger_route_their_context_through() {
    let cases = [(0u64, 0.0f32), (1, -1.5), (12_345, 3.25), (u64::MAX, f32::NAN), (99, f32::INFINITY)];
    for (tick, pay) in cases {
        let ctx = build();

        match ctx.run_tick(&TickContext { tick }).effects.as_slice() {
            [Impact::Emit { payload: Value::Const(p), .. }] => assert_eq!(f32::from_bits(p.bits), tick as f32),
            other => panic!("expected one Emit from tick, got {other:?}"),
        }

        let tc = TriggerContext { event: EventId(TRIGGER_EVENT), payload: Value::Const(num(pay)) };
        match ctx.run_trigger(&tc).effects.as_slice() {
            [Impact::Emit { event, payload: Value::Const(p), .. }] => {
                assert_eq!(*event, EventId(TRIGGER_EVENT));
                let p = f32::from_bits(p.bits);
                assert!((p == pay) || (p.is_nan() && pay.is_nan()));
            }
            other => panic!("expected one Emit from trigger, got {other:?}"),
        }
    }
}

#[test]
fn rebinding_a_handler_replaces_it_and_leaves_the_others() {
    let mut routes: Dispatch<u8, u8, u8> = Dispatch::new();
    routes.bind_handler(HandlerId(3), 30);
    assert_eq!(routes.handler(HandlerId(3)), Some(&30));
    // The ids below the bound one were grown empty.
    assert_eq!(routes.handler(HandlerId(0)), None);
    assert_eq!(routes.handler(HandlerId(2)), None);
    assert_eq!(routes.handler(HandlerId(4)), None);
    routes.bind_handler(HandlerId(1), 10);
    routes.bind_handler(HandlerId(3), 31);
    assert_eq!(routes.handler(HandlerId(3)), Some(&31));
    assert_eq!(routes.handler(HandlerId(1)), Some(&10));
    assert_eq!(routes.tick(), None);
}

#[test]
fn the_first_reaction_registered_for_an_event_is_the_one_it_reaches() {
    let mut routes: Dispatch<u8, u8, u8> = Dispatch::new();
    assert_eq!(routes.trigger(EventId(1)), None);
    routes.add_trigger(EventId(1), 10);
    routes.add_trigger(EventId(2), 20);
    routes.add_trigger(EventId(1), 11);
    assert_eq!(routes.trigger(EventId(1)), Some(&10));
    assert_eq!(routes.trigger(EventId(2)), Some(&20));
    assert_eq!(routes.trigger(EventId(3)), None);
    routes.set_tick(5);
    routes.set_tick(6);
    assert_eq!(routes.tick(), Some(&6));
}
