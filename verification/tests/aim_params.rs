use stormlight_mod::context::ModContext;
use stormlight_mod::ids::ParamId;
use stormlight_mod::params;

#[derive(Clone, Copy)]
enum Reserved {
    Cooldown,
    Range,
    Radius,
    Spread,
}

impl Reserved {
    fn name(self) -> &'static str {
        match self {
            Self::Cooldown => params::COOLDOWN,
            Self::Range => params::RANGE,
            Self::Radius => params::RADIUS,
            Self::Spread => params::SPREAD,
        }
    }

    fn intern(self, ctx: &mut ModContext) -> ParamId {
        match self {
            Self::Cooldown => ctx.cooldown_param(),
            Self::Range => ctx.range_param(),
            Self::Radius => ctx.radius_param(),
            Self::Spread => ctx.spread_param(),
        }
    }
}

fn scenarios() -> Vec<(Vec<Reserved>, usize)> {
    vec![
        (vec![], 0),
        (vec![Reserved::Range], 1),
        (vec![Reserved::Cooldown, Reserved::Range, Reserved::Radius, Reserved::Spread], 2),
        (vec![Reserved::Spread, Reserved::Spread, Reserved::Range, Reserved::Spread, Reserved::Cooldown], 3),
        (vec![Reserved::Radius, Reserved::Cooldown, Reserved::Radius], 0),
    ]
}

#[test]
fn accessors_are_the_reserved_names() {
    for (declared, _) in scenarios() {
        let mut ctx = ModContext::new();
        for r in declared {
            let by_accessor = r.intern(&mut ctx);
            let by_name = ctx.param(r.name());
            assert_eq!(by_accessor, by_name, "`{}` accessor minted a second id", r.name());
        }
    }
}

#[test]
fn declared_reserved_params_land_at_their_minted_indices() {
    for (declared, locals) in scenarios() {
        let mut ctx = ModContext::new();
        for i in 0..locals {
            ctx.param(&format!("mod_local_{i}"));
        }
        let minted: Vec<(Reserved, ParamId)> = declared.iter().map(|&r| (r, r.intern(&mut ctx))).collect();
        let reg = ctx.finish();
        for (r, id) in minted {
            assert_eq!(
                reg.names.params.get(id.0 as usize).map(String::as_str),
                Some(r.name()),
                "emitted name table disagrees with the handle the author holds"
            );
        }
        for r in [Reserved::Cooldown, Reserved::Range, Reserved::Radius, Reserved::Spread] {
            assert!(reg.names.params.iter().filter(|n| *n == r.name()).count() <= 1, "`{}` emitted twice", r.name());
        }
    }
}

#[test]
fn reserved_names_sit_at_their_reserved_indices() {
    assert_eq!(params::reserved_index(params::COOLDOWN), Some(0));
    assert_eq!(params::reserved_index(params::RANGE), Some(1));
    assert_eq!(params::reserved_index(params::RADIUS), Some(2));
    assert_eq!(params::reserved_index(params::SPREAD), Some(3));
    assert_eq!(params::reserved_index("Range"), None);
}
