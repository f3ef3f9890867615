//! `SlotRef` — how an effect names an ability slot.
//!
//! A literal slot ([`SlotRef::At`]) is right wherever the author knows the
//! number and means it. [`SlotRef::This`] says "the slot this effect is running
//! from", for the slot that is unknown when a talent is written: a selector
//! matching several slots, an ability selected by id, a granted ability, a
//! reaction. It is resolved wherever the slot is already known — at fold time by
//! [`bind_slots`], at freeze time, or at resolution time from the running
//! context — and a declaration where no slot can ever answer is refused at
//! adoption by [`require_bound`].

use vstd::prelude::*;

use crate::ids::{
    AbilityId, AnimStateId, BuffId, CurveId, DamageTypeId, EventId, HandlerId, NavMeshId, ParamId, ResourceId,
    Slot, StackId, StatId, TagClassId, TagId, TalentId, UnitId,
};
use crate::remap::{fixes_outputs, keeps_ids, lands_in, settles, total, Contents, IdMap, RemapIds, RemapPair};

verus! {

/// Which ability slot an effect means: a written-down one, or the one it is
/// running from.
#[derive(Clone, Copy, PartialEq, Eq, Structural, Hash, Debug)]
pub enum SlotRef {
    /// This exact slot, whatever is bound in it.
    At(Slot),
    /// The slot this effect is running from, whichever that turns out to be.
    This,
}

impl SlotRef {
    /// The slot this names, given the slot the effect is running from (`None`
    /// when nothing is). A relative reference never falls back to slot 0.
    pub fn resolve(self, running_from: Option<Slot>) -> (r: Option<Slot>)
        ensures
            r == (match self {
                SlotRef::At(slot) => Some(slot),
                SlotRef::This => running_from,
            }),
    {
        match self {
            SlotRef::At(slot) => Some(slot),
            SlotRef::This => running_from,
        }
    }

    /// Whether this reference still needs a slot to be resolved against. False
    /// once it has been bound, which is what makes binding idempotent.
    pub fn is_relative(self) -> (r: bool)
        ensures
            r == (self is This),
    {
        match self {
            SlotRef::At(_) => false,
            SlotRef::This => true,
        }
    }
}

impl From<Slot> for SlotRef {
    fn from(slot: Slot) -> (r: Self) {
        SlotRef::At(slot)
    }
}

impl vstd::std_specs::convert::FromSpecImpl<Slot> for SlotRef {
    open spec fn obeys_from_spec() -> bool {
        true
    }

    open spec fn from_spec(slot: Slot) -> SlotRef {
        SlotRef::At(slot)
    }
}

/// A declaration that says "the slot I am running from" where nothing can ever
/// say which slot that is.
#[derive(Clone, Copy, PartialEq, Eq, Structural, Hash, Debug)]
pub struct UnboundSlot;

impl UnboundSlot {
    /// The human-readable report of this refusal.
    pub fn message(&self) -> (r: &'static str)
        ensures
            r@ == "`This` slot reference in a position with no slot to resolve against"@,
    {
        "`This` slot reference in a position with no slot to resolve against"
    }
}

/// Rewrites every [`SlotRef::This`] in a tree to one concrete slot, leaving
/// every other handle — and every `At` — exactly as written.
#[derive(Clone, Copy, Debug)]
pub struct BindThis(pub Slot);

impl IdMap for BindThis {
    type Error = ();

    open spec fn stat_spec(&self, id: StatId) -> Result<StatId, ()> {
        Ok(id)
    }

    fn stat(&self, id: StatId) -> (r: Result<StatId, ()>) {
        Ok(id)
    }

    open spec fn resource_spec(&self, id: ResourceId) -> Result<ResourceId, ()> {
        Ok(id)
    }

    fn resource(&self, id: ResourceId) -> (r: Result<ResourceId, ()>) {
        Ok(id)
    }

    open spec fn stack_spec(&self, id: StackId) -> Result<StackId, ()> {
        Ok(id)
    }

    fn stack(&self, id: StackId) -> (r: Result<StackId, ()>) {
        Ok(id)
    }

    open spec fn tag_spec(&self, id: TagId) -> Result<TagId, ()> {
        Ok(id)
    }

    fn tag(&self, id: TagId) -> (r: Result<TagId, ()>) {
        Ok(id)
    }

    open spec fn tag_class_spec(&self, id: TagClassId) -> Result<TagClassId, ()> {
        Ok(id)
    }

    fn tag_class(&self, id: TagClassId) -> (r: Result<TagClassId, ()>) {
        Ok(id)
    }

    open spec fn param_spec(&self, id: ParamId) -> Result<ParamId, ()> {
        Ok(id)
    }

    fn param(&self, id: ParamId) -> (r: Result<ParamId, ()>) {
        Ok(id)
    }

    open spec fn event_spec(&self, id: EventId) -> Result<EventId, ()> {
        Ok(id)
    }

    fn event(&self, id: EventId) -> (r: Result<EventId, ()>) {
        Ok(id)
    }

    open spec fn buff_spec(&self, id: BuffId) -> Result<BuffId, ()> {
        Ok(id)
    }

    fn buff(&self, id: BuffId) -> (r: Result<BuffId, ()>) {
        Ok(id)
    }

    open spec fn curve_spec(&self, id: CurveId) -> Result<CurveId, ()> {
        Ok(id)
    }

    fn curve(&self, id: CurveId) -> (r: Result<CurveId, ()>) {
        Ok(id)
    }

    open spec fn damage_type_spec(&self, id: DamageTypeId) -> Result<DamageTypeId, ()> {
        Ok(id)
    }

    fn damage_type(&self, id: DamageTypeId) -> (r: Result<DamageTypeId, ()>) {
        Ok(id)
    }

    open spec fn ability_spec(&self, id: AbilityId) -> Result<AbilityId, ()> {
        Ok(id)
    }

    fn ability(&self, id: AbilityId) -> (r: Result<AbilityId, ()>) {
        Ok(id)
    }

    open spec fn talent_spec(&self, id: TalentId) -> Result<TalentId, ()> {
        Ok(id)
    }

    fn talent(&self, id: TalentId) -> (r: Result<TalentId, ()>) {
        Ok(id)
    }

    open spec fn handler_spec(&self, id: HandlerId) -> Result<HandlerId, ()> {
        Ok(id)
    }

    fn handler(&self, id: HandlerId) -> (r: Result<HandlerId, ()>) {
        Ok(id)
    }

    open spec fn unit_spec(&self, id: UnitId) -> Result<UnitId, ()> {
        Ok(id)
    }

    fn unit(&self, id: UnitId) -> (r: Result<UnitId, ()>) {
        Ok(id)
    }

    open spec fn navmesh_spec(&self, id: NavMeshId) -> Result<NavMeshId, ()> {
        Ok(id)
    }

    fn navmesh(&self, id: NavMeshId) -> (r: Result<NavMeshId, ()>) {
        Ok(id)
    }

    open spec fn anim_state_spec(&self, id: AnimStateId) -> Result<AnimStateId, ()> {
        Ok(id)
    }

    fn anim_state(&self, id: AnimStateId) -> (r: Result<AnimStateId, ()>) {
        Ok(id)
    }

    open spec fn slot_ref_spec(&self, slot: SlotRef) -> Result<SlotRef, ()> {
        match slot {
            SlotRef::At(_) => Ok(slot),
            SlotRef::This => Ok(SlotRef::At(self.0)),
        }
    }

    fn slot_ref(&self, slot: SlotRef) -> (r: Result<SlotRef, ()>) {
        match slot {
            SlotRef::At(_) => Ok(slot),
            SlotRef::This => Ok(SlotRef::At(self.0)),
        }
    }
}

/// Refuses any [`SlotRef::This`] it finds and translates nothing else.
#[derive(Clone, Copy, Debug)]
pub struct RejectThis;

impl IdMap for RejectThis {
    type Error = UnboundSlot;

    open spec fn stat_spec(&self, id: StatId) -> Result<StatId, UnboundSlot> {
        Ok(id)
    }

    fn stat(&self, id: StatId) -> (r: Result<StatId, UnboundSlot>) {
        Ok(id)
    }

    open spec fn resource_spec(&self, id: ResourceId) -> Result<ResourceId, UnboundSlot> {
        Ok(id)
    }

    fn resource(&self, id: ResourceId) -> (r: Result<ResourceId, UnboundSlot>) {
        Ok(id)
    }

    open spec fn stack_spec(&self, id: StackId) -> Result<StackId, UnboundSlot> {
        Ok(id)
    }

    fn stack(&self, id: StackId) -> (r: Result<StackId, UnboundSlot>) {
        Ok(id)
    }

    open spec fn tag_spec(&self, id: TagId) -> Result<TagId, UnboundSlot> {
        Ok(id)
    }

    fn tag(&self, id: TagId) -> (r: Result<TagId, UnboundSlot>) {
        Ok(id)
    }

    open spec fn tag_class_spec(&self, id: TagClassId) -> Result<TagClassId, UnboundSlot> {
        Ok(id)
    }

    fn tag_class(&self, id: TagClassId) -> (r: Result<TagClassId, UnboundSlot>) {
        Ok(id)
    }

    open spec fn param_spec(&self, id: ParamId) -> Result<ParamId, UnboundSlot> {
        Ok(id)
    }

    fn param(&self, id: ParamId) -> (r: Result<ParamId, UnboundSlot>) {
        Ok(id)
    }

    open spec fn event_spec(&self, id: EventId) -> Result<EventId, UnboundSlot> {
        Ok(id)
    }

    fn event(&self, id: EventId) -> (r: Result<EventId, UnboundSlot>) {
        Ok(id)
    }

    open spec fn buff_spec(&self, id: BuffId) -> Result<BuffId, UnboundSlot> {
        Ok(id)
    }

    fn buff(&self, id: BuffId) -> (r: Result<BuffId, UnboundSlot>) {
        Ok(id)
    }

    open spec fn curve_spec(&self, id: CurveId) -> Result<CurveId, UnboundSlot> {
        Ok(id)
    }

    fn curve(&self, id: CurveId) -> (r: Result<CurveId, UnboundSlot>) {
        Ok(id)
    }

    open spec fn damage_type_spec(&self, id: DamageTypeId) -> Result<DamageTypeId, UnboundSlot> {
        Ok(id)
    }

    fn damage_type(&self, id: DamageTypeId) -> (r: Result<DamageTypeId, UnboundSlot>) {
        Ok(id)
    }

    open spec fn ability_spec(&self, id: AbilityId) -> Result<AbilityId, UnboundSlot> {
        Ok(id)
    }

    fn ability(&self, id: AbilityId) -> (r: Result<AbilityId, UnboundSlot>) {
        Ok(id)
    }

    open spec fn talent_spec(&self, id: TalentId) -> Result<TalentId, UnboundSlot> {
        Ok(id)
    }

    fn talent(&self, id: TalentId) -> (r: Result<TalentId, UnboundSlot>) {
        Ok(id)
    }

    open spec fn handler_spec(&self, id: HandlerId) -> Result<HandlerId, UnboundSlot> {
        Ok(id)
    }

    fn handler(&self, id: HandlerId) -> (r: Result<HandlerId, UnboundSlot>) {
        Ok(id)
    }

    open spec fn unit_spec(&self, id: UnitId) -> Result<UnitId, UnboundSlot> {
        Ok(id)
    }

    fn unit(&self, id: UnitId) -> (r: Result<UnitId, UnboundSlot>) {
        Ok(id)
    }

    open spec fn navmesh_spec(&self, id: NavMeshId) -> Result<NavMeshId, UnboundSlot> {
        Ok(id)
    }

    fn navmesh(&self, id: NavMeshId) -> (r: Result<NavMeshId, UnboundSlot>) {
        Ok(id)
    }

    open spec fn anim_state_spec(&self, id: AnimStateId) -> Result<AnimStateId, UnboundSlot> {
        Ok(id)
    }

    fn anim_state(&self, id: AnimStateId) -> (r: Result<AnimStateId, UnboundSlot>) {
        Ok(id)
    }

    open spec fn slot_ref_spec(&self, slot: SlotRef) -> Result<SlotRef, UnboundSlot> {
        if slot is This {
            Err(UnboundSlot)
        } else {
            Ok(slot)
        }
    }

    fn slot_ref(&self, slot: SlotRef) -> (r: Result<SlotRef, UnboundSlot>) {
        if slot.is_relative() {
            Err(UnboundSlot)
        } else {
            Ok(slot)
        }
    }
}

/// Bind every relative slot reference anywhere in `tree` to `slot`: the result
/// is `tree` with every `This` replaced by `At(slot)` and nothing else changed.
/// It rides the id-remap walk, so it reaches every place a handle can hide.
pub fn bind_slots<T: RemapIds<BindThis>>(tree: &mut T, slot: Slot)
    ensures
        old(tree).remaps_to(&BindThis(slot), *final(tree)),
{
    let map = BindThis(slot);
    proof {
        assert(total(&map));
        tree.lemma_total(&map);
    }
    match tree.remap_ids(&map) {
        Ok(()) => {},
        Err(_) => {},
    }
}

/// Error unless every slot reference in `tree` is already absolute. The tree
/// holds exactly what it held before, whether it passes or not.
pub fn require_bound<T: RemapIds<RejectThis>>(tree: &mut T) -> (r: Result<(), UnboundSlot>)
    ensures
        r == old(tree).remap_check(&RejectThis),
        old(tree).same_as(*final(tree)),
{
    let r = tree.remap_ids(&RejectThis);
    proof {
        assert(keeps_ids(&RejectThis));
        if r is Ok {
            old(tree).lemma_identity(&RejectThis, *tree);
        } else {
            old(tree).lemma_walk_keeps(&RejectThis, *tree);
        }
    }
    r
}

/// Binding never fails: whatever a tree holds, binding it to a slot succeeds.
pub proof fn law_bind_slots_never_fails<T: RemapIds<BindThis>>(tree: T, slot: Slot)
    ensures
        tree.remap_check(&BindThis(slot)) is Ok,
{
    assert(total(&BindThis(slot)));
    tree.lemma_total(&BindThis(slot));
}

/// Binding is idempotent: binding an already bound tree to the same slot
/// again leaves its contents as they were, so binding twice says the same thing
/// as binding once.
pub proof fn law_bind_slots_idempotent<T: RemapIds<BindThis>>(tree: T, slot: Slot, once: T, twice: T)
    requires
        tree.remaps_to(&BindThis(slot), once),
        once.remaps_to(&BindThis(slot), twice),
    ensures
        once.same_as(twice),
{
    assert(settles(&BindThis(slot)));
    tree.lemma_stable(&BindThis(slot), once, twice);
}


/// A bound tree passes [`require_bound`]: once [`bind_slots`] has run, no
/// relative slot reference is left anywhere in the tree.
pub proof fn law_a_bound_tree_passes_require_bound<T: RemapPair<BindThis, RejectThis>>(tree: T, slot: Slot, bound: T)
    requires
        RemapIds::<BindThis>::remaps_to(&tree, &BindThis(slot), bound),
    ensures
        RemapIds::<RejectThis>::remap_check(&bound, &RejectThis) is Ok,
{
    assert(lands_in(&BindThis(slot), &RejectThis));
    tree.lemma_lands(&BindThis(slot), &RejectThis, bound);
}

/// Binding a bound tree again, to any slot at all, changes nothing: the first
/// binding left no relative reference for the second to resolve.
pub proof fn law_rebinding_changes_nothing<T: RemapPair<BindThis, BindThis>>(
    tree: T,
    first: Slot,
    second: Slot,
    once: T,
    twice: T,
)
    requires
        tree.remaps_to(&BindThis(first), once),
        once.remaps_to(&BindThis(second), twice),
    ensures
        once.same_as(twice),
{
    assert(fixes_outputs(&BindThis(first), &BindThis(second)));
    tree.lemma_fixed(&BindThis(first), &BindThis(second), once, twice);
}

} // verus!
