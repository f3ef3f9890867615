use stormlight_mod::abilities::{AbilityDescriptor, CastSpec, Params, Targeting};
use stormlight_mod::conditions::Condition;
use stormlight_mod::context::{ModContext, NameTable};
use stormlight_mod::ids::{AbilityId, TagClassId, TagId};
use stormlight_mod::manifest::abi_version;

fn sample_ability() -> AbilityDescriptor {
    AbilityDescriptor {
        id: AbilityId(0),
        params: Params(Vec::new()),
        targeting: Targeting::NoTarget,
        cast: CastSpec::Instant,
        cost: Vec::new(),
        cast_gate: Condition::Always,
        on_cast_start: Vec::new(),
        on_cast: Vec::new(),
        tags: Vec::new(),
    }
}

#[test]
fn finish_aligns_names_with_descriptor_indices() {
    for na in 0..8usize {
        for (ns, nt) in [(0usize, 0usize), (3, 2), (7, 5)] {
            let mut ctx = ModContext::new();
            for i in 0..na {
                let id = ctx.ability(&format!("ab{i}"), sample_ability());
                assert_eq!(id, AbilityId(i as u32), "define order must mint dense handles");
            }
            for i in 0..ns {
                ctx.stat(&format!("st{i}"));
            }
            for i in 0..nt {
                ctx.register_tag_class(&format!("tg{i}"), &format!("cl{i}"));
            }
            let reg = ctx.finish();

            assert_eq!(reg.abi, abi_version());

            assert_eq!(reg.abilities.len(), na);
            assert_eq!(reg.names.abilities.len(), na);
            for i in 0..na {
                assert_eq!(reg.abilities[i].id, AbilityId(i as u32));
                assert_eq!(reg.names.abilities[i], format!("ab{i}"));
            }

            assert_eq!(reg.names.stats.len(), ns);
            for i in 0..ns {
                assert_eq!(reg.names.stats[i], format!("st{i}"));
            }

            assert_eq!(reg.tag_classes.len(), nt);
            assert_eq!(reg.names.tags.len(), nt);
            assert_eq!(reg.names.tag_classes.len(), nt);
            for i in 0..nt {
                assert_eq!(reg.tag_classes[i], (TagId(i as u16), TagClassId(i as u16)));
            }
        }
    }
}

#[test]
fn interning_the_same_name_is_idempotent() {
    for n in 0..8usize {
        let mut ctx = ModContext::new();
        let first: Vec<_> = (0..n).map(|i| ctx.stat(&format!("s{i}"))).collect();
        for (i, &h) in first.iter().enumerate() {
            assert_eq!(ctx.stat(&format!("s{i}")), h);
        }
        assert_eq!(ctx.finish().names.stats.len(), n);
    }
}

#[test]
fn a_repeated_tag_class_registration_reuses_both_handles() {
    let mut ctx = ModContext::new();
    let a = ctx.register_tag_class("rooted", "blocks_move");
    let b = ctx.register_tag_class("rooted", "blocks_move");
    assert_eq!(a, b);
    let reg = ctx.finish();
    assert_eq!(reg.tag_classes, vec![a, a]);
    assert_eq!(reg.names.tags, vec!["rooted".to_string()]);
    assert_eq!(reg.names.tag_classes, vec!["blocks_move".to_string()]);
}

#[test]
fn there_is_room_for_a_known_name_and_for_a_new_one_below_the_limit() {
    let mut ctx = ModContext::new();
    assert!(ctx.has_room(NameTable::Events, "hit"));
    for i in 0..64 {
        ctx.event(&format!("e{i}"));
    }
    assert!(ctx.has_room(NameTable::Events, "e17"));
    assert!(ctx.has_room(NameTable::Events, "hit"));
    assert!(ctx.has_room(NameTable::Stats, "hit"));
}
