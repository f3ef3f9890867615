use stormlight_mod::common::NumOp;
use stormlight_mod::ids::{AbilityId, ParamId, Slot, TagId, TalentId};
use stormlight_mod::math::Value;
use stormlight_mod::scalar::Scalar;
use stormlight_mod::talent_tree::{TalentTier, TalentTree, RepickPolicy, MAX_TIERS};
use stormlight_mod::talents::{
    AbilityFocus, AbilityHook, AbilitySelector, GrantAbility, GrantError, GrantTarget, Loadout, ParamPatch, Rider,
    TalentDescriptor,
};

fn talent(selector: Vec<AbilitySelector>) -> TalentDescriptor {
    TalentDescriptor {
        id: TalentId(0),
        selector,
        patches: Vec::new(),
        riders: Vec::new(),
        add_reactions: Vec::new(),
        grants: Vec::new(),
        modifiers: Vec::new(),
        tags: Vec::new(),
        quest: None,
    }
}

fn patch(selector: Option<AbilitySelector>) -> ParamPatch {
    ParamPatch { param: ParamId(0), op: NumOp::Add, value: Value::Const(Scalar::from_bits(0)), selector }
}

fn rider(selector: Option<AbilitySelector>) -> Rider {
    Rider { hook: AbilityHook::OnHit, effects: Vec::new(), selector }
}

#[test]
fn grants_resolve_to_their_slot_or_say_why_not() {
    let mut bound = Loadout::new();
    bound.insert(Slot(0), AbilityId(10));
    bound.insert(Slot(1), AbilityId(11));
    let exact = GrantAbility { ability: AbilityId(5), into: GrantTarget::Exact(Slot(1)) };
    assert_eq!(exact.resolve(&bound, &[]), Err(GrantError::Occupied { slot: Slot(1), held: AbilityId(11) }));
    let exact_free = GrantAbility { ability: AbilityId(5), into: GrantTarget::Exact(Slot(2)) };
    assert_eq!(exact_free.resolve(&bound, &[]), Ok(Slot(2)));
    let replace = GrantAbility { ability: AbilityId(5), into: GrantTarget::Replace(Slot(0)) };
    assert_eq!(replace.resolve(&bound, &[]), Ok(Slot(0)));
    let first = GrantAbility { ability: AbilityId(5), into: GrantTarget::FirstFree };
    assert_eq!(first.resolve(&bound, &[]), Err(GrantError::NoGrantSlots));
    assert_eq!(first.resolve(&bound, &[Slot(0), Slot(1)]), Err(GrantError::PoolFull));
    assert_eq!(first.resolve(&bound, &[Slot(0), Slot(3), Slot(4)]), Ok(Slot(3)));
}

#[test]
fn a_sequence_of_grants_folds_over_the_loadout() {
    let mut bound = Loadout::new();
    let first = GrantAbility { ability: AbilityId(7), into: GrantTarget::FirstFree };
    let pool = [Slot(4), Slot(5)];
    let a = first.resolve(&bound, &pool).unwrap();
    bound.insert(a, AbilityId(7));
    let b = first.resolve(&bound, &pool).unwrap();
    bound.insert(b, AbilityId(8));
    assert_eq!((a, b), (Slot(4), Slot(5)));
    assert_eq!(first.resolve(&bound, &pool), Err(GrantError::PoolFull));
    assert_eq!(bound.get(Slot(5)), Some(AbilityId(8)));
    bound.insert(Slot(5), AbilityId(9));
    assert_eq!(bound.get(Slot(5)), Some(AbilityId(9)));
    assert!(!bound.contains_key(Slot(6)));
}

#[test]
fn governing_selectors_come_from_the_parts_in_order_without_repeats() {
    let slot1 = AbilitySelector::Slot(Slot(1));
    let tag = AbilitySelector::Tag(TagId(2));
    let mut t = talent(vec![slot1, tag]);
    assert!(t.governing_selectors().is_empty(), "a talent with no parts governs nothing");
    t.patches = vec![patch(None), patch(Some(AbilitySelector::Any)), patch(None)];
    t.riders = vec![rider(Some(tag)), rider(Some(AbilitySelector::SelfUnit))];
    assert_eq!(t.governing_selectors(), vec![slot1, tag, AbilitySelector::Any, AbilitySelector::SelfUnit]);
    assert_eq!(t.patch_selectors(&t.patches[0]), &[slot1, tag][..]);
    assert_eq!(t.rider_selectors(&t.riders[1]), &[AbilitySelector::SelfUnit][..]);
}

#[test]
fn a_talent_changes_one_ability_only_when_that_has_one_answer() {
    let mut t = talent(vec![AbilitySelector::Slot(Slot(2))]);
    t.patches = vec![patch(None)];
    assert_eq!(t.changes(), Some(AbilityFocus::Slot(Slot(2))));

    let mut t = talent(vec![AbilitySelector::Ability(AbilityId(9))]);
    t.riders = vec![rider(None)];
    assert_eq!(t.changes(), Some(AbilityFocus::Ability(AbilityId(9))));

    let mut t = talent(vec![AbilitySelector::Tag(TagId(1))]);
    t.patches = vec![patch(None)];
    assert_eq!(t.changes(), None);

    let mut t = talent(vec![AbilitySelector::Slot(Slot(0))]);
    t.grants = vec![GrantAbility { ability: AbilityId(3), into: GrantTarget::FirstFree }];
    assert_eq!(t.changes(), Some(AbilityFocus::Ability(AbilityId(3))), "a selector with no parts governs nothing");
    t.grants = vec![GrantAbility { ability: AbilityId(3), into: GrantTarget::Replace(Slot(6)) }];
    assert_eq!(t.changes(), Some(AbilityFocus::Slot(Slot(6))));
    t.grants.push(GrantAbility { ability: AbilityId(4), into: GrantTarget::Exact(Slot(7)) });
    assert_eq!(t.changes(), None);
}

#[test]
fn grant_errors_read_as_sentences() {
    assert_eq!(
        GrantError::Occupied { slot: Slot(3), held: AbilityId(17) }.message(),
        "slot 3 is already bound to ability 17"
    );
    assert_eq!(GrantError::NoGrantSlots.message(), "the unit offers no slots to grants");
    assert_eq!(GrantError::PoolFull.message(), "every slot the unit offers to grants is taken");
}

fn tier(level: u8, options: &[u32], recommended: Option<u8>) -> TalentTier {
    TalentTier { level, options: options.iter().map(|&t| TalentId(t)).collect(), recommended }
}

#[test]
fn a_tier_opens_at_its_level_and_relocks_below_it() {
    let tree = TalentTree { tiers: vec![tier(0, &[1, 2], None), tier(5, &[3], Some(0))], repick: RepickPolicy::default() };
    assert_eq!(tree.repick, RepickPolicy::Locked);
    assert!(tree.unlocked(0, 0));
    assert!(!tree.unlocked(1, 4));
    assert!(tree.unlocked(1, 5));
    assert!(tree.unlocked(1, 9));
    assert!(!tree.unlocked(2, 99), "an index naming no tier is never unlocked");
    assert_eq!(tree.tier_of(TalentId(3)), Some(1));
    assert_eq!(tree.tier_of(TalentId(8)), None);
    assert!(tree.tiers[1].is_recommended(0));
    assert!(!tree.tiers[0].is_recommended(0));
    assert!(tree.tiers[0].offers(TalentId(2)));
    assert_eq!(tree.len(), 2);
    assert!(!tree.is_empty());
    let reach = tree.reachable();
    assert_eq!(reach.len(), 2);
    assert_eq!(reach[1].0, 1);
}

#[test]
fn a_suggestion_past_the_options_suggests_nothing() {
    let t = tier(0, &[1], Some(3));
    assert!(!t.is_recommended(3));
}

#[test]
fn the_first_tier_offering_a_talent_is_its_tier_and_the_tail_is_unreachable() {
    let mut tiers: Vec<TalentTier> = (0..300).map(|_| tier(0, &[], None)).collect();
    tiers[299] = tier(0, &[42], None);
    tiers[7] = tier(0, &[5], None);
    tiers[9] = tier(0, &[5], None);
    let tree = TalentTree { tiers, repick: RepickPolicy::Free };
    assert_eq!(tree.len(), MAX_TIERS);
    assert_eq!(tree.tier_of(TalentId(5)), Some(7));
    assert_eq!(tree.tier_of(TalentId(42)), None);
    assert!(tree.tier(255).is_some());
}
