use stormlight_mod::common::{Affiliation, ImpactTarget, NumOp, TargetFilter};
use stormlight_mod::conditions::Condition;
use stormlight_mod::ids::{
    AbilityId, AnimStateId, BuffId, CurveId, DamageTypeId, EventId, HandlerId, NavMeshId, ParamId, ResourceId, Slot,
    StackId, StatId, TagClassId, TagId, TalentId, UnitId,
};
use stormlight_mod::impacts::{AbilityTarget, CostMode, DamageFlags, Impact, PoolRef};
use stormlight_mod::math::{Value, Var, Who};
use stormlight_mod::remap::{IdMap, KeepIds, RemapIds};
use stormlight_mod::scalar::Scalar;
use stormlight_mod::slot_ref::{bind_slots, require_bound, BindThis, RejectThis, SlotRef, UnboundSlot};

/// Shifts every tag by 100 and refuses tag 13; every other handle passes.
struct Shift;

#[derive(Debug, PartialEq)]
struct Dangling(u16);

impl IdMap for Shift {
    type Error = Dangling;
    fn stat(&self, id: StatId) -> Result<StatId, Dangling> { Ok(StatId(id.0 + 1)) }
    fn resource(&self, id: ResourceId) -> Result<ResourceId, Dangling> { Ok(id) }
    fn stack(&self, id: StackId) -> Result<StackId, Dangling> { Ok(id) }
    fn tag(&self, id: TagId) -> Result<TagId, Dangling> {
        if id.0 == 13 { Err(Dangling(13)) } else { Ok(TagId(id.0 + 100)) }
    }
    fn tag_class(&self, id: TagClassId) -> Result<TagClassId, Dangling> { Ok(id) }
    fn param(&self, id: ParamId) -> Result<ParamId, Dangling> { Ok(id) }
    fn event(&self, id: EventId) -> Result<EventId, Dangling> { Ok(EventId(id.0 + 1)) }
    fn buff(&self, id: BuffId) -> Result<BuffId, Dangling> { Ok(id) }
    fn curve(&self, id: CurveId) -> Result<CurveId, Dangling> { Ok(CurveId(id.0 + 2)) }
    fn damage_type(&self, id: DamageTypeId) -> Result<DamageTypeId, Dangling> {
        if id.0 == 9 { Err(Dangling(9)) } else { Ok(id) }
    }
    fn ability(&self, id: AbilityId) -> Result<AbilityId, Dangling> { Ok(id) }
    fn talent(&self, id: TalentId) -> Result<TalentId, Dangling> { Ok(id) }
    fn handler(&self, id: HandlerId) -> Result<HandlerId, Dangling> { Ok(id) }
    fn unit(&self, id: UnitId) -> Result<UnitId, Dangling> { Ok(id) }
    fn navmesh(&self, id: NavMeshId) -> Result<NavMeshId, Dangling> { Ok(id) }
    fn anim_state(&self, id: AnimStateId) -> Result<AnimStateId, Dangling> { Ok(id) }
    fn slot_ref(&self, slot: SlotRef) -> Result<SlotRef, Dangling> { Ok(slot) }
    fn stat_spec(&self, id: StatId) -> Result<StatId, Dangling> { self.stat(id) }
    fn resource_spec(&self, id: ResourceId) -> Result<ResourceId, Dangling> { self.resource(id) }
    fn stack_spec(&self, id: StackId) -> Result<StackId, Dangling> { self.stack(id) }
    fn tag_spec(&self, id: TagId) -> Result<TagId, Dangling> { self.tag(id) }
    fn tag_class_spec(&self, id: TagClassId) -> Result<TagClassId, Dangling> { self.tag_class(id) }
    fn param_spec(&self, id: ParamId) -> Result<ParamId, Dangling> { self.param(id) }
    fn event_spec(&self, id: EventId) -> Result<EventId, Dangling> { self.event(id) }
    fn buff_spec(&self, id: BuffId) -> Result<BuffId, Dangling> { self.buff(id) }
    fn curve_spec(&self, id: CurveId) -> Result<CurveId, Dangling> { self.curve(id) }
    fn damage_type_spec(&self, id: DamageTypeId) -> Result<DamageTypeId, Dangling> { self.damage_type(id) }
    fn ability_spec(&self, id: AbilityId) -> Result<AbilityId, Dangling> { self.ability(id) }
    fn talent_spec(&self, id: TalentId) -> Result<TalentId, Dangling> { self.talent(id) }
    fn handler_spec(&self, id: HandlerId) -> Result<HandlerId, Dangling> { self.handler(id) }
    fn unit_spec(&self, id: UnitId) -> Result<UnitId, Dangling> { self.unit(id) }
    fn navmesh_spec(&self, id: NavMeshId) -> Result<NavMeshId, Dangling> { self.navmesh(id) }
    fn anim_state_spec(&self, id: AnimStateId) -> Result<AnimStateId, Dangling> { self.anim_state(id) }
    fn slot_ref_spec(&self, id: SlotRef) -> Result<SlotRef, Dangling> { self.slot_ref(id) }
}

fn zero() -> Scalar {
    Scalar::from_bits(0)
}

fn damage(dtype: u16) -> Impact {
    Impact::Damage {
        amount: Value::Curve(CurveId(1), Box::new(Value::Read(Var::Stat(StatId(4), Who::Caster)))),
        dtype: DamageTypeId(dtype),
        target: ImpactTarget::ResolvedTarget,
        flags: DamageFlags::default(),
    }
}

fn retarget(inner: Vec<Impact>, tags: Vec<u16>) -> Impact {
    Impact::Retarget {
        shape: stormlight_mod::impacts::TargetShape::SelfOnly,
        filter: TargetFilter {
            affiliation: Affiliation::Enemies,
            require_tags: tags.into_iter().map(TagId).collect(),
            exclude_tags: Vec::new(),
            include_dead: false,
        },
        max_targets: Value::Const(zero()),
        exclude_primary: false,
        inner,
    }
}

#[test]
fn every_handle_in_the_tree_is_translated() {
    let mut tree = vec![retarget(vec![damage(1)], vec![2, 3])];
    assert_eq!(tree.remap_ids(&Shift), Ok(()));
    let expected = vec![Impact::Retarget {
        shape: stormlight_mod::impacts::TargetShape::SelfOnly,
        filter: TargetFilter {
            affiliation: Affiliation::Enemies,
            require_tags: vec![TagId(102), TagId(103)],
            exclude_tags: Vec::new(),
            include_dead: false,
        },
        max_targets: Value::Const(zero()),
        exclude_primary: false,
        inner: vec![Impact::Damage {
            amount: Value::Curve(CurveId(3), Box::new(Value::Read(Var::Stat(StatId(5), Who::Caster)))),
            dtype: DamageTypeId(1),
            target: ImpactTarget::ResolvedTarget,
            flags: DamageFlags::default(),
        }],
    }];
    assert_eq!(tree, expected);
}

#[test]
fn a_dangling_handle_surfaces_as_the_first_error_in_walk_order() {
    let mut tree = vec![retarget(vec![damage(9)], vec![13])];
    assert_eq!(tree.remap_ids(&Shift), Err(Dangling(13)), "the filter is walked before the inner tree");
    let mut tree = vec![retarget(vec![damage(9)], vec![1])];
    assert_eq!(tree.remap_ids(&Shift), Err(Dangling(9)));
}

#[test]
fn the_identity_map_changes_nothing() {
    let original = vec![retarget(vec![damage(9)], vec![13]), Impact::Emit { event: EventId(3), target: ImpactTarget::Caster, payload: Value::ScaleCtx }];
    let mut tree = original.clone();
    assert_eq!(tree.remap_ids(&KeepIds), Ok(()));
    assert_eq!(tree, original);
}

fn slot_tree() -> Vec<Impact> {
    vec![
        Impact::CastAbility {
            slot: SlotRef::This,
            target: AbilityTarget::Inherit,
            value_scale: Value::Read(Var::CooldownOf(SlotRef::This, Who::Caster)),
            cost: CostMode::Free,
        },
        Impact::AdjustPool {
            pool: PoolRef::Cooldown(SlotRef::At(Slot(2))),
            op: NumOp::Sub,
            amount: Value::Read(Var::ChargesOf(SlotRef::This, Who::Caster)),
            target: ImpactTarget::Caster,
        },
    ]
}

#[test]
fn binding_replaces_every_relative_slot_and_keeps_the_absolute_ones() {
    let mut tree = slot_tree();
    bind_slots(&mut tree, Slot(4));
    let expected = vec![
        Impact::CastAbility {
            slot: SlotRef::At(Slot(4)),
            target: AbilityTarget::Inherit,
            value_scale: Value::Read(Var::CooldownOf(SlotRef::At(Slot(4)), Who::Caster)),
            cost: CostMode::Free,
        },
        Impact::AdjustPool {
            pool: PoolRef::Cooldown(SlotRef::At(Slot(2))),
            op: NumOp::Sub,
            amount: Value::Read(Var::ChargesOf(SlotRef::At(Slot(4)), Who::Caster)),
            target: ImpactTarget::Caster,
        },
    ];
    assert_eq!(tree, expected);
}

#[test]
fn binding_twice_is_binding_once() {
    let mut once = slot_tree();
    bind_slots(&mut once, Slot(1));
    let mut twice = once.clone();
    bind_slots(&mut twice, Slot(1));
    assert_eq!(once, twice);
    let mut other = once.clone();
    bind_slots(&mut other, Slot(6));
    assert_eq!(once, other, "a bound tree has nothing left to bind");
}

#[test]
fn only_a_fully_bound_tree_passes_and_passing_changes_nothing() {
    let mut tree = slot_tree();
    assert_eq!(require_bound(&mut tree), Err(UnboundSlot));
    assert_eq!(tree, slot_tree());
    bind_slots(&mut tree, Slot(0));
    let bound = tree.clone();
    assert_eq!(require_bound(&mut tree), Ok(()));
    assert_eq!(tree, bound);
    let mut plain = vec![Condition::Always];
    assert_eq!(require_bound(&mut plain), Ok(()));
}

#[test]
fn slot_references_resolve_against_the_running_slot() {
    assert_eq!(SlotRef::At(Slot(3)).resolve(Some(Slot(1))), Some(Slot(3)));
    assert_eq!(SlotRef::This.resolve(Some(Slot(1))), Some(Slot(1)));
    assert_eq!(SlotRef::This.resolve(None), None, "never a silent fall back to slot 0");
    assert!(SlotRef::This.is_relative());
    assert!(!SlotRef::from(Slot(0)).is_relative());
    assert_eq!(BindThis(Slot(2)).slot_ref(SlotRef::This), Ok(SlotRef::At(Slot(2))));
    assert_eq!(RejectThis.slot_ref(SlotRef::This), Err(UnboundSlot));
}

fn translated_damage(dtype: u16) -> Impact {
    Impact::Damage {
        amount: Value::Curve(CurveId(3), Box::new(Value::Read(Var::Stat(StatId(5), Who::Caster)))),
        dtype: DamageTypeId(dtype),
        target: ImpactTarget::ResolvedTarget,
        flags: DamageFlags::default(),
    }
}

#[test]
fn a_walk_that_fails_rewrites_what_it_passed_and_nothing_after() {
    let mut tree = vec![damage(1), retarget(vec![damage(1)], vec![4, 13, 5]), damage(1)];
    assert_eq!(tree.remap_ids(&Shift), Err(Dangling(13)));
    let mut expected_filter_tree = retarget(vec![damage(1)], vec![4, 13, 5]);
    if let Impact::Retarget { filter, .. } = &mut expected_filter_tree {
        filter.require_tags = vec![TagId(104), TagId(13), TagId(5)];
    }
    assert_eq!(tree, vec![translated_damage(1), expected_filter_tree, damage(1)]);
}

/// Refuses handler 7; every other handle passes unchanged.
struct NoHandler;
impl IdMap for NoHandler {
    type Error = HandlerId;
    fn stat(&self, id: StatId) -> Result<StatId, HandlerId> { Ok(id) }
    fn resource(&self, id: ResourceId) -> Result<ResourceId, HandlerId> { Ok(id) }
    fn stack(&self, id: StackId) -> Result<StackId, HandlerId> { Ok(id) }
    fn tag(&self, id: TagId) -> Result<TagId, HandlerId> { Ok(id) }
    fn tag_class(&self, id: TagClassId) -> Result<TagClassId, HandlerId> { Ok(id) }
    fn param(&self, id: ParamId) -> Result<ParamId, HandlerId> { Ok(id) }
    fn event(&self, id: EventId) -> Result<EventId, HandlerId> { Ok(id) }
    fn buff(&self, id: BuffId) -> Result<BuffId, HandlerId> { Ok(id) }
    fn curve(&self, id: CurveId) -> Result<CurveId, HandlerId> { Ok(id) }
    fn damage_type(&self, id: DamageTypeId) -> Result<DamageTypeId, HandlerId> { Ok(id) }
    fn ability(&self, id: AbilityId) -> Result<AbilityId, HandlerId> { Ok(id) }
    fn talent(&self, id: TalentId) -> Result<TalentId, HandlerId> { Ok(id) }
    fn handler(&self, id: HandlerId) -> Result<HandlerId, HandlerId> { if id == HandlerId(7) { Err(id) } else { Ok(id) } }
    fn unit(&self, id: UnitId) -> Result<UnitId, HandlerId> { Ok(id) }
    fn navmesh(&self, id: NavMeshId) -> Result<NavMeshId, HandlerId> { Ok(id) }
    fn anim_state(&self, id: AnimStateId) -> Result<AnimStateId, HandlerId> { Ok(id) }
    fn slot_ref(&self, slot: SlotRef) -> Result<SlotRef, HandlerId> { Ok(slot) }
    fn stat_spec(&self, id: StatId) -> Result<StatId, HandlerId> { self.stat(id) }
    fn resource_spec(&self, id: ResourceId) -> Result<ResourceId, HandlerId> { self.resource(id) }
    fn stack_spec(&self, id: StackId) -> Result<StackId, HandlerId> { self.stack(id) }
    fn tag_spec(&self, id: TagId) -> Result<TagId, HandlerId> { self.tag(id) }
    fn tag_class_spec(&self, id: TagClassId) -> Result<TagClassId, HandlerId> { self.tag_class(id) }
    fn param_spec(&self, id: ParamId) -> Result<ParamId, HandlerId> { self.param(id) }
    fn event_spec(&self, id: EventId) -> Result<EventId, HandlerId> { self.event(id) }
    fn buff_spec(&self, id: BuffId) -> Result<BuffId, HandlerId> { self.buff(id) }
    fn curve_spec(&self, id: CurveId) -> Result<CurveId, HandlerId> { self.curve(id) }
    fn damage_type_spec(&self, id: DamageTypeId) -> Result<DamageTypeId, HandlerId> { self.damage_type(id) }
    fn ability_spec(&self, id: AbilityId) -> Result<AbilityId, HandlerId> { self.ability(id) }
    fn talent_spec(&self, id: TalentId) -> Result<TalentId, HandlerId> { self.talent(id) }
    fn handler_spec(&self, id: HandlerId) -> Result<HandlerId, HandlerId> { self.handler(id) }
    fn unit_spec(&self, id: UnitId) -> Result<UnitId, HandlerId> { self.unit(id) }
    fn navmesh_spec(&self, id: NavMeshId) -> Result<NavMeshId, HandlerId> { self.navmesh(id) }
    fn anim_state_spec(&self, id: AnimStateId) -> Result<AnimStateId, HandlerId> { self.anim_state(id) }
    fn slot_ref_spec(&self, id: SlotRef) -> Result<SlotRef, HandlerId> { self.slot_ref(id) }
}

#[test]
fn a_custom_handler_that_fails_is_left_as_it_was() {
    let custom = Impact::Custom { handler: HandlerId(7), params: vec![1, 2], target: ImpactTarget::Caster };
    let mut imp = custom.clone();
    assert_eq!(imp.remap_ids(&NoHandler), Err(HandlerId(7)));
    assert_eq!(imp, custom);
}

#[test]
fn a_tree_refused_for_an_unbound_slot_is_left_as_it_was() {
    let original = slot_tree();
    let mut tree = original.clone();
    assert_eq!(require_bound(&mut tree), Err(UnboundSlot));
    assert_eq!(tree, original);
}

/// `Shift` followed by `Shift`, as one map.
struct ShiftTwice;

impl IdMap for ShiftTwice {
    type Error = Dangling;
    fn stat(&self, id: StatId) -> Result<StatId, Dangling> { Ok(StatId(id.0 + 2)) }
    fn resource(&self, id: ResourceId) -> Result<ResourceId, Dangling> { Ok(id) }
    fn stack(&self, id: StackId) -> Result<StackId, Dangling> { Ok(id) }
    fn tag(&self, id: TagId) -> Result<TagId, Dangling> {
        if id.0 == 13 { Err(Dangling(13)) } else { Ok(TagId(id.0 + 200)) }
    }
    fn tag_class(&self, id: TagClassId) -> Result<TagClassId, Dangling> { Ok(id) }
    fn param(&self, id: ParamId) -> Result<ParamId, Dangling> { Ok(id) }
    fn event(&self, id: EventId) -> Result<EventId, Dangling> { Ok(EventId(id.0 + 2)) }
    fn buff(&self, id: BuffId) -> Result<BuffId, Dangling> { Ok(id) }
    fn curve(&self, id: CurveId) -> Result<CurveId, Dangling> { Ok(CurveId(id.0 + 4)) }
    fn damage_type(&self, id: DamageTypeId) -> Result<DamageTypeId, Dangling> {
        if id.0 == 9 { Err(Dangling(9)) } else { Ok(id) }
    }
    fn ability(&self, id: AbilityId) -> Result<AbilityId, Dangling> { Ok(id) }
    fn talent(&self, id: TalentId) -> Result<TalentId, Dangling> { Ok(id) }
    fn handler(&self, id: HandlerId) -> Result<HandlerId, Dangling> { Ok(id) }
    fn unit(&self, id: UnitId) -> Result<UnitId, Dangling> { Ok(id) }
    fn navmesh(&self, id: NavMeshId) -> Result<NavMeshId, Dangling> { Ok(id) }
    fn anim_state(&self, id: AnimStateId) -> Result<AnimStateId, Dangling> { Ok(id) }
    fn slot_ref(&self, slot: SlotRef) -> Result<SlotRef, Dangling> { Ok(slot) }
    fn stat_spec(&self, id: StatId) -> Result<StatId, Dangling> { self.stat(id) }
    fn resource_spec(&self, id: ResourceId) -> Result<ResourceId, Dangling> { self.resource(id) }
    fn stack_spec(&self, id: StackId) -> Result<StackId, Dangling> { self.stack(id) }
    fn tag_spec(&self, id: TagId) -> Result<TagId, Dangling> { self.tag(id) }
    fn tag_class_spec(&self, id: TagClassId) -> Result<TagClassId, Dangling> { self.tag_class(id) }
    fn param_spec(&self, id: ParamId) -> Result<ParamId, Dangling> { self.param(id) }
    fn event_spec(&self, id: EventId) -> Result<EventId, Dangling> { self.event(id) }
    fn buff_spec(&self, id: BuffId) -> Result<BuffId, Dangling> { self.buff(id) }
    fn curve_spec(&self, id: CurveId) -> Result<CurveId, Dangling> { self.curve(id) }
    fn damage_type_spec(&self, id: DamageTypeId) -> Result<DamageTypeId, Dangling> { self.damage_type(id) }
    fn ability_spec(&self, id: AbilityId) -> Result<AbilityId, Dangling> { self.ability(id) }
    fn talent_spec(&self, id: TalentId) -> Result<TalentId, Dangling> { self.talent(id) }
    fn handler_spec(&self, id: HandlerId) -> Result<HandlerId, Dangling> { self.handler(id) }
    fn unit_spec(&self, id: UnitId) -> Result<UnitId, Dangling> { self.unit(id) }
    fn navmesh_spec(&self, id: NavMeshId) -> Result<NavMeshId, Dangling> { self.navmesh(id) }
    fn anim_state_spec(&self, id: AnimStateId) -> Result<AnimStateId, Dangling> { self.anim_state(id) }
    fn slot_ref_spec(&self, id: SlotRef) -> Result<SlotRef, Dangling> { self.slot_ref(id) }
}

#[test]
fn walking_through_two_maps_is_walking_through_their_composite() {
    let original = vec![retarget(vec![damage(1)], vec![2, 3]), Impact::Emit { event: EventId(3), target: ImpactTarget::Caster, payload: Value::ScaleCtx }];
    let mut twice = original.clone();
    assert_eq!(twice.remap_ids(&Shift), Ok(()));
    assert_eq!(twice.remap_ids(&Shift), Ok(()));
    let mut composite = original.clone();
    assert_eq!(composite.remap_ids(&ShiftTwice), Ok(()));
    assert_eq!(twice, composite);
}
