//! The id-remap walk — rewrites every interned handle buried in a descriptor
//! tree from one id space to another. A mod authors descriptors in its local id
//! space; at adoption the host translates every handle to the engine's global
//! space through an [`IdMap`]. This module owns the traversal; the host owns the
//! mapping policy by implementing [`IdMap`].
//!
//! Only name-interned handles (and [`SlotRef`]s, through the same walk) are
//! rewritten; slots and raw numeric or geometry data pass through untouched.
//! The walk is fallible: a dangling local handle surfaces as the map's error,
//! the first one met in walk order, rather than a panic.
//!
//! Every walk is specified by three relations, stated per type: the first error
//! it meets ([`RemapIds::remap_check`]), what a successful walk produced
//! ([`RemapIds::remaps_to`]: the same tree with every handle translated), and
//! when two trees hold the same contents ([`Contents::same_as`]).

use vstd::prelude::*;

use crate::animation::{AnimLayer, AnimState, AnimationDescriptor, StateClip, Transition};
use crate::notify::{NotifyAction, NotifyPoint};
use crate::ui::{style_same, TextSource, UiAction, UiRoot, ValueBinding, Widget, WidgetKind};
use crate::abilities::{AbilityDescriptor, CastSpec, Cost, Params, Targeting};
use crate::attacks::{AttackDelivery, AttackDescriptor};
use crate::behaviors::{BuffSpec, Modifier};
use crate::common::TargetFilter;
use crate::conditions::Condition;
use crate::descriptors::Registration;
use crate::ids::{
    AbilityId, AnimStateId, BuffId, CurveId, DamageTypeId, EventId, HandlerId, NavMeshId, ParamId, ResourceId,
    StackId, StatId, TagClassId, TagId, TalentId, UnitId,
};
use crate::impacts::{BuffSelector, Impact, LoopKind, PendingFilter, PoolRef, SpawnPattern, TargetShape, TeleportDest};
use crate::math::{Value, Var};
use crate::missiles::{BodyDescriptor, BodyKind, CollisionSpec};
use crate::navmesh::NavMeshDescriptor;
use crate::placement::UnitPlacement;
use crate::runtime::{GuestEffects, TriggerContext};
use crate::slot_ref::SlotRef;
use crate::talents::{AbilitySelector, GrantAbility, ParamPatch, Rider, TalentDescriptor};
use crate::tasks::{QuestPayout, QuestSpec, QuestStage};
use crate::triggers::{EventFilter, EventKind, Reaction};

verus! {

/// Translates one interned handle to another, one method per id family. A
/// total map (identity, or a complete local-to-global table) never errors; a
/// map missing a referenced handle returns [`Self::Error`] so the walk can stop
/// cleanly. Each method's result is its `*_spec` function of the handle.
pub trait IdMap {
    /// Why a handle could not be translated (e.g. a dangling local reference).
    type Error;

    /// What this map makes of a `StatId`.
    spec fn stat_spec(&self, id: StatId) -> Result<StatId, Self::Error>;

    /// Translate a `StatId`.
    fn stat(&self, id: StatId) -> (r: Result<StatId, Self::Error>)
        ensures
            r == self.stat_spec(id),
    ;

    /// What this map makes of a `ResourceId`.
    spec fn resource_spec(&self, id: ResourceId) -> Result<ResourceId, Self::Error>;

    /// Translate a `ResourceId`.
    fn resource(&self, id: ResourceId) -> (r: Result<ResourceId, Self::Error>)
        ensures
            r == self.resource_spec(id),
    ;

    /// What this map makes of a `StackId`.
    spec fn stack_spec(&self, id: StackId) -> Result<StackId, Self::Error>;

    /// Translate a `StackId`.
    fn stack(&self, id: StackId) -> (r: Result<StackId, Self::Error>)
        ensures
            r == self.stack_spec(id),
    ;

    /// What this map makes of a `TagId`.
    spec fn tag_spec(&self, id: TagId) -> Result<TagId, Self::Error>;

    /// Translate a `TagId`.
    fn tag(&self, id: TagId) -> (r: Result<TagId, Self::Error>)
        ensures
            r == self.tag_spec(id),
    ;

    /// What this map makes of a `TagClassId`.
    spec fn tag_class_spec(&self, id: TagClassId) -> Result<TagClassId, Self::Error>;

    /// Translate a `TagClassId`.
    fn tag_class(&self, id: TagClassId) -> (r: Result<TagClassId, Self::Error>)
        ensures
            r == self.tag_class_spec(id),
    ;

    /// What this map makes of a `ParamId`.
    spec fn param_spec(&self, id: ParamId) -> Result<ParamId, Self::Error>;

    /// Translate a `ParamId`.
    fn param(&self, id: ParamId) -> (r: Result<ParamId, Self::Error>)
        ensures
            r == self.param_spec(id),
    ;

    /// What this map makes of a `EventId`.
    spec fn event_spec(&self, id: EventId) -> Result<EventId, Self::Error>;

    /// Translate a `EventId`.
    fn event(&self, id: EventId) -> (r: Result<EventId, Self::Error>)
        ensures
            r == self.event_spec(id),
    ;

    /// What this map makes of a `BuffId`.
    spec fn buff_spec(&self, id: BuffId) -> Result<BuffId, Self::Error>;

    /// Translate a `BuffId`.
    fn buff(&self, id: BuffId) -> (r: Result<BuffId, Self::Error>)
        ensures
            r == self.buff_spec(id),
    ;

    /// What this map makes of a `CurveId`.
    spec fn curve_spec(&self, id: CurveId) -> Result<CurveId, Self::Error>;

    /// Translate a `CurveId`.
    fn curve(&self, id: CurveId) -> (r: Result<CurveId, Self::Error>)
        ensures
            r == self.curve_spec(id),
    ;

    /// What this map makes of a `DamageTypeId`.
    spec fn damage_type_spec(&self, id: DamageTypeId) -> Result<DamageTypeId, Self::Error>;

    /// Translate a `DamageTypeId`.
    fn damage_type(&self, id: DamageTypeId) -> (r: Result<DamageTypeId, Self::Error>)
        ensures
            r == self.damage_type_spec(id),
    ;

    /// What this map makes of a `AbilityId`.
    spec fn ability_spec(&self, id: AbilityId) -> Result<AbilityId, Self::Error>;

    /// Translate a `AbilityId`.
    fn ability(&self, id: AbilityId) -> (r: Result<AbilityId, Self::Error>)
        ensures
            r == self.ability_spec(id),
    ;

    /// What this map makes of a `TalentId`.
    spec fn talent_spec(&self, id: TalentId) -> Result<TalentId, Self::Error>;

    /// Translate a `TalentId`.
    fn talent(&self, id: TalentId) -> (r: Result<TalentId, Self::Error>)
        ensures
            r == self.talent_spec(id),
    ;

    /// What this map makes of a `HandlerId`.
    spec fn handler_spec(&self, id: HandlerId) -> Result<HandlerId, Self::Error>;

    /// Translate a `HandlerId`.
    fn handler(&self, id: HandlerId) -> (r: Result<HandlerId, Self::Error>)
        ensures
            r == self.handler_spec(id),
    ;

    /// What this map makes of a `UnitId`.
    spec fn unit_spec(&self, id: UnitId) -> Result<UnitId, Self::Error>;

    /// Translate a `UnitId`.
    fn unit(&self, id: UnitId) -> (r: Result<UnitId, Self::Error>)
        ensures
            r == self.unit_spec(id),
    ;

    /// What this map makes of a `NavMeshId`.
    spec fn navmesh_spec(&self, id: NavMeshId) -> Result<NavMeshId, Self::Error>;

    /// Translate a `NavMeshId`.
    fn navmesh(&self, id: NavMeshId) -> (r: Result<NavMeshId, Self::Error>)
        ensures
            r == self.navmesh_spec(id),
    ;

    /// What this map makes of a `AnimStateId`.
    spec fn anim_state_spec(&self, id: AnimStateId) -> Result<AnimStateId, Self::Error>;

    /// Translate a `AnimStateId`.
    fn anim_state(&self, id: AnimStateId) -> (r: Result<AnimStateId, Self::Error>)
        ensures
            r == self.anim_state_spec(id),
    ;

    /// What this map makes of a `SlotRef`.
    spec fn slot_ref_spec(&self, id: SlotRef) -> Result<SlotRef, Self::Error>;

    /// Translate a `SlotRef`.
    fn slot_ref(&self, id: SlotRef) -> (r: Result<SlotRef, Self::Error>)
        ensures
            r == self.slot_ref_spec(id),
    ;

}

/// `a`, unless it is fine, in which case `b`: the first error of two steps.
pub open spec fn then<E>(a: Result<(), E>, b: Result<(), E>) -> Result<(), E> {
    if a is Err {
        a
    } else if b is Err {
        b
    } else {
        Ok(())
    }
}

/// A translation's outcome with the translated handle dropped.
pub open spec fn leaf<T, E>(r: Result<T, E>) -> Result<(), E> {
    match r {
        Ok(_) => Ok(()),
        Err(e) => Err(e),
    }
}

proof fn lemma_unit_ok<E>(r: Result<(), E>)
    requires
        r is Ok,
    ensures
        r == Ok::<(), E>(()),
{
    match r {
        Ok(u) => {
            assert(u == ());
        },
        Err(_) => {},
    }
}

/// Whether `m` translates every handle of every family without error.
pub open spec fn total<M: IdMap>(m: &M) -> bool {
    &&& forall|x: StatId| #[trigger] m.stat_spec(x) is Ok
    &&& forall|x: ResourceId| #[trigger] m.resource_spec(x) is Ok
    &&& forall|x: StackId| #[trigger] m.stack_spec(x) is Ok
    &&& forall|x: TagId| #[trigger] m.tag_spec(x) is Ok
    &&& forall|x: TagClassId| #[trigger] m.tag_class_spec(x) is Ok
    &&& forall|x: ParamId| #[trigger] m.param_spec(x) is Ok
    &&& forall|x: EventId| #[trigger] m.event_spec(x) is Ok
    &&& forall|x: BuffId| #[trigger] m.buff_spec(x) is Ok
    &&& forall|x: CurveId| #[trigger] m.curve_spec(x) is Ok
    &&& forall|x: DamageTypeId| #[trigger] m.damage_type_spec(x) is Ok
    &&& forall|x: AbilityId| #[trigger] m.ability_spec(x) is Ok
    &&& forall|x: TalentId| #[trigger] m.talent_spec(x) is Ok
    &&& forall|x: HandlerId| #[trigger] m.handler_spec(x) is Ok
    &&& forall|x: UnitId| #[trigger] m.unit_spec(x) is Ok
    &&& forall|x: NavMeshId| #[trigger] m.navmesh_spec(x) is Ok
    &&& forall|x: AnimStateId| #[trigger] m.anim_state_spec(x) is Ok
    &&& forall|x: SlotRef| #[trigger] m.slot_ref_spec(x) is Ok
}

/// Whether every handle `m` translates comes back as itself.
pub open spec fn keeps_ids<M: IdMap>(m: &M) -> bool {
    &&& forall|x: StatId| #[trigger] m.stat_spec(x) is Ok ==> m.stat_spec(x) == Ok::<StatId, M::Error>(x)
    &&& forall|x: ResourceId| #[trigger] m.resource_spec(x) is Ok ==> m.resource_spec(x) == Ok::<ResourceId, M::Error>(x)
    &&& forall|x: StackId| #[trigger] m.stack_spec(x) is Ok ==> m.stack_spec(x) == Ok::<StackId, M::Error>(x)
    &&& forall|x: TagId| #[trigger] m.tag_spec(x) is Ok ==> m.tag_spec(x) == Ok::<TagId, M::Error>(x)
    &&& forall|x: TagClassId| #[trigger] m.tag_class_spec(x) is Ok ==> m.tag_class_spec(x) == Ok::<TagClassId, M::Error>(x)
    &&& forall|x: ParamId| #[trigger] m.param_spec(x) is Ok ==> m.param_spec(x) == Ok::<ParamId, M::Error>(x)
    &&& forall|x: EventId| #[trigger] m.event_spec(x) is Ok ==> m.event_spec(x) == Ok::<EventId, M::Error>(x)
    &&& forall|x: BuffId| #[trigger] m.buff_spec(x) is Ok ==> m.buff_spec(x) == Ok::<BuffId, M::Error>(x)
    &&& forall|x: CurveId| #[trigger] m.curve_spec(x) is Ok ==> m.curve_spec(x) == Ok::<CurveId, M::Error>(x)
    &&& forall|x: DamageTypeId| #[trigger] m.damage_type_spec(x) is Ok ==> m.damage_type_spec(x) == Ok::<DamageTypeId, M::Error>(x)
    &&& forall|x: AbilityId| #[trigger] m.ability_spec(x) is Ok ==> m.ability_spec(x) == Ok::<AbilityId, M::Error>(x)
    &&& forall|x: TalentId| #[trigger] m.talent_spec(x) is Ok ==> m.talent_spec(x) == Ok::<TalentId, M::Error>(x)
    &&& forall|x: HandlerId| #[trigger] m.handler_spec(x) is Ok ==> m.handler_spec(x) == Ok::<HandlerId, M::Error>(x)
    &&& forall|x: UnitId| #[trigger] m.unit_spec(x) is Ok ==> m.unit_spec(x) == Ok::<UnitId, M::Error>(x)
    &&& forall|x: NavMeshId| #[trigger] m.navmesh_spec(x) is Ok ==> m.navmesh_spec(x) == Ok::<NavMeshId, M::Error>(x)
    &&& forall|x: AnimStateId| #[trigger] m.anim_state_spec(x) is Ok ==> m.anim_state_spec(x) == Ok::<AnimStateId, M::Error>(x)
    &&& forall|x: SlotRef| #[trigger] m.slot_ref_spec(x) is Ok ==> m.slot_ref_spec(x) == Ok::<SlotRef, M::Error>(x)
}

/// Whether every handle `m` produces is one it translates to itself, so that translating twice is translating once.
pub open spec fn settles<M: IdMap>(m: &M) -> bool {
    &&& forall|x: StatId| #[trigger] m.stat_spec(x) is Ok ==> m.stat_spec(m.stat_spec(x)->Ok_0) == m.stat_spec(x)
    &&& forall|x: ResourceId| #[trigger] m.resource_spec(x) is Ok ==> m.resource_spec(m.resource_spec(x)->Ok_0) == m.resource_spec(x)
    &&& forall|x: StackId| #[trigger] m.stack_spec(x) is Ok ==> m.stack_spec(m.stack_spec(x)->Ok_0) == m.stack_spec(x)
    &&& forall|x: TagId| #[trigger] m.tag_spec(x) is Ok ==> m.tag_spec(m.tag_spec(x)->Ok_0) == m.tag_spec(x)
    &&& forall|x: TagClassId| #[trigger] m.tag_class_spec(x) is Ok ==> m.tag_class_spec(m.tag_class_spec(x)->Ok_0) == m.tag_class_spec(x)
    &&& forall|x: ParamId| #[trigger] m.param_spec(x) is Ok ==> m.param_spec(m.param_spec(x)->Ok_0) == m.param_spec(x)
    &&& forall|x: EventId| #[trigger] m.event_spec(x) is Ok ==> m.event_spec(m.event_spec(x)->Ok_0) == m.event_spec(x)
    &&& forall|x: BuffId| #[trigger] m.buff_spec(x) is Ok ==> m.buff_spec(m.buff_spec(x)->Ok_0) == m.buff_spec(x)
    &&& forall|x: CurveId| #[trigger] m.curve_spec(x) is Ok ==> m.curve_spec(m.curve_spec(x)->Ok_0) == m.curve_spec(x)
    &&& forall|x: DamageTypeId| #[trigger] m.damage_type_spec(x) is Ok ==> m.damage_type_spec(m.damage_type_spec(x)->Ok_0) == m.damage_type_spec(x)
    &&& forall|x: AbilityId| #[trigger] m.ability_spec(x) is Ok ==> m.ability_spec(m.ability_spec(x)->Ok_0) == m.ability_spec(x)
    &&& forall|x: TalentId| #[trigger] m.talent_spec(x) is Ok ==> m.talent_spec(m.talent_spec(x)->Ok_0) == m.talent_spec(x)
    &&& forall|x: HandlerId| #[trigger] m.handler_spec(x) is Ok ==> m.handler_spec(m.handler_spec(x)->Ok_0) == m.handler_spec(x)
    &&& forall|x: UnitId| #[trigger] m.unit_spec(x) is Ok ==> m.unit_spec(m.unit_spec(x)->Ok_0) == m.unit_spec(x)
    &&& forall|x: NavMeshId| #[trigger] m.navmesh_spec(x) is Ok ==> m.navmesh_spec(m.navmesh_spec(x)->Ok_0) == m.navmesh_spec(x)
    &&& forall|x: AnimStateId| #[trigger] m.anim_state_spec(x) is Ok ==> m.anim_state_spec(m.anim_state_spec(x)->Ok_0) == m.anim_state_spec(x)
    &&& forall|x: SlotRef| #[trigger] m.slot_ref_spec(x) is Ok ==> m.slot_ref_spec(m.slot_ref_spec(x)->Ok_0) == m.slot_ref_spec(x)
}

/// Whether every handle `m1` produces is one `m2` translates without error.
pub open spec fn lands_in<M1: IdMap, M2: IdMap>(m1: &M1, m2: &M2) -> bool {
    &&& forall|x: StatId| #[trigger] m1.stat_spec(x) is Ok ==> m2.stat_spec(m1.stat_spec(x)->Ok_0) is Ok
    &&& forall|x: ResourceId| #[trigger] m1.resource_spec(x) is Ok ==> m2.resource_spec(m1.resource_spec(x)->Ok_0) is Ok
    &&& forall|x: StackId| #[trigger] m1.stack_spec(x) is Ok ==> m2.stack_spec(m1.stack_spec(x)->Ok_0) is Ok
    &&& forall|x: TagId| #[trigger] m1.tag_spec(x) is Ok ==> m2.tag_spec(m1.tag_spec(x)->Ok_0) is Ok
    &&& forall|x: TagClassId| #[trigger] m1.tag_class_spec(x) is Ok ==> m2.tag_class_spec(m1.tag_class_spec(x)->Ok_0) is Ok
    &&& forall|x: ParamId| #[trigger] m1.param_spec(x) is Ok ==> m2.param_spec(m1.param_spec(x)->Ok_0) is Ok
    &&& forall|x: EventId| #[trigger] m1.event_spec(x) is Ok ==> m2.event_spec(m1.event_spec(x)->Ok_0) is Ok
    &&& forall|x: BuffId| #[trigger] m1.buff_spec(x) is Ok ==> m2.buff_spec(m1.buff_spec(x)->Ok_0) is Ok
    &&& forall|x: CurveId| #[trigger] m1.curve_spec(x) is Ok ==> m2.curve_spec(m1.curve_spec(x)->Ok_0) is Ok
    &&& forall|x: DamageTypeId| #[trigger] m1.damage_type_spec(x) is Ok ==> m2.damage_type_spec(m1.damage_type_spec(x)->Ok_0) is Ok
    &&& forall|x: AbilityId| #[trigger] m1.ability_spec(x) is Ok ==> m2.ability_spec(m1.ability_spec(x)->Ok_0) is Ok
    &&& forall|x: TalentId| #[trigger] m1.talent_spec(x) is Ok ==> m2.talent_spec(m1.talent_spec(x)->Ok_0) is Ok
    &&& forall|x: HandlerId| #[trigger] m1.handler_spec(x) is Ok ==> m2.handler_spec(m1.handler_spec(x)->Ok_0) is Ok
    &&& forall|x: UnitId| #[trigger] m1.unit_spec(x) is Ok ==> m2.unit_spec(m1.unit_spec(x)->Ok_0) is Ok
    &&& forall|x: NavMeshId| #[trigger] m1.navmesh_spec(x) is Ok ==> m2.navmesh_spec(m1.navmesh_spec(x)->Ok_0) is Ok
    &&& forall|x: AnimStateId| #[trigger] m1.anim_state_spec(x) is Ok ==> m2.anim_state_spec(m1.anim_state_spec(x)->Ok_0) is Ok
    &&& forall|x: SlotRef| #[trigger] m1.slot_ref_spec(x) is Ok ==> m2.slot_ref_spec(m1.slot_ref_spec(x)->Ok_0) is Ok
}

/// Whether `m2` translates every handle `m1` produces to itself.
pub open spec fn fixes_outputs<M1: IdMap, M2: IdMap>(m1: &M1, m2: &M2) -> bool {
    &&& forall|x: StatId| #[trigger] m1.stat_spec(x) is Ok ==> m2.stat_spec(m1.stat_spec(x)->Ok_0) == Ok::<StatId, M2::Error>(m1.stat_spec(x)->Ok_0)
    &&& forall|x: ResourceId| #[trigger] m1.resource_spec(x) is Ok ==> m2.resource_spec(m1.resource_spec(x)->Ok_0) == Ok::<ResourceId, M2::Error>(m1.resource_spec(x)->Ok_0)
    &&& forall|x: StackId| #[trigger] m1.stack_spec(x) is Ok ==> m2.stack_spec(m1.stack_spec(x)->Ok_0) == Ok::<StackId, M2::Error>(m1.stack_spec(x)->Ok_0)
    &&& forall|x: TagId| #[trigger] m1.tag_spec(x) is Ok ==> m2.tag_spec(m1.tag_spec(x)->Ok_0) == Ok::<TagId, M2::Error>(m1.tag_spec(x)->Ok_0)
    &&& forall|x: TagClassId| #[trigger] m1.tag_class_spec(x) is Ok ==> m2.tag_class_spec(m1.tag_class_spec(x)->Ok_0) == Ok::<TagClassId, M2::Error>(m1.tag_class_spec(x)->Ok_0)
    &&& forall|x: ParamId| #[trigger] m1.param_spec(x) is Ok ==> m2.param_spec(m1.param_spec(x)->Ok_0) == Ok::<ParamId, M2::Error>(m1.param_spec(x)->Ok_0)
    &&& forall|x: EventId| #[trigger] m1.event_spec(x) is Ok ==> m2.event_spec(m1.event_spec(x)->Ok_0) == Ok::<EventId, M2::Error>(m1.event_spec(x)->Ok_0)
    &&& forall|x: BuffId| #[trigger] m1.buff_spec(x) is Ok ==> m2.buff_spec(m1.buff_spec(x)->Ok_0) == Ok::<BuffId, M2::Error>(m1.buff_spec(x)->Ok_0)
    &&& forall|x: CurveId| #[trigger] m1.curve_spec(x) is Ok ==> m2.curve_spec(m1.curve_spec(x)->Ok_0) == Ok::<CurveId, M2::Error>(m1.curve_spec(x)->Ok_0)
    &&& forall|x: DamageTypeId| #[trigger] m1.damage_type_spec(x) is Ok ==> m2.damage_type_spec(m1.damage_type_spec(x)->Ok_0) == Ok::<DamageTypeId, M2::Error>(m1.damage_type_spec(x)->Ok_0)
    &&& forall|x: AbilityId| #[trigger] m1.ability_spec(x) is Ok ==> m2.ability_spec(m1.ability_spec(x)->Ok_0) == Ok::<AbilityId, M2::Error>(m1.ability_spec(x)->Ok_0)
    &&& forall|x: TalentId| #[trigger] m1.talent_spec(x) is Ok ==> m2.talent_spec(m1.talent_spec(x)->Ok_0) == Ok::<TalentId, M2::Error>(m1.talent_spec(x)->Ok_0)
    &&& forall|x: HandlerId| #[trigger] m1.handler_spec(x) is Ok ==> m2.handler_spec(m1.handler_spec(x)->Ok_0) == Ok::<HandlerId, M2::Error>(m1.handler_spec(x)->Ok_0)
    &&& forall|x: UnitId| #[trigger] m1.unit_spec(x) is Ok ==> m2.unit_spec(m1.unit_spec(x)->Ok_0) == Ok::<UnitId, M2::Error>(m1.unit_spec(x)->Ok_0)
    &&& forall|x: NavMeshId| #[trigger] m1.navmesh_spec(x) is Ok ==> m2.navmesh_spec(m1.navmesh_spec(x)->Ok_0) == Ok::<NavMeshId, M2::Error>(m1.navmesh_spec(x)->Ok_0)
    &&& forall|x: AnimStateId| #[trigger] m1.anim_state_spec(x) is Ok ==> m2.anim_state_spec(m1.anim_state_spec(x)->Ok_0) == Ok::<AnimStateId, M2::Error>(m1.anim_state_spec(x)->Ok_0)
    &&& forall|x: SlotRef| #[trigger] m1.slot_ref_spec(x) is Ok ==> m2.slot_ref_spec(m1.slot_ref_spec(x)->Ok_0) == Ok::<SlotRef, M2::Error>(m1.slot_ref_spec(x)->Ok_0)
}

/// Whether `m12` is `m1` followed by `m2`: wherever both translate a handle, `m12` translates it to where `m2` takes what `m1` made of it.
pub open spec fn composes<M1: IdMap, M2: IdMap, M12: IdMap>(m1: &M1, m2: &M2, m12: &M12) -> bool {
    &&& forall|x: StatId| #[trigger] m1.stat_spec(x) is Ok && m2.stat_spec(m1.stat_spec(x)->Ok_0) is Ok ==> m12.stat_spec(x) == Ok::<StatId, M12::Error>(m2.stat_spec(m1.stat_spec(x)->Ok_0)->Ok_0)
    &&& forall|x: ResourceId| #[trigger] m1.resource_spec(x) is Ok && m2.resource_spec(m1.resource_spec(x)->Ok_0) is Ok ==> m12.resource_spec(x) == Ok::<ResourceId, M12::Error>(m2.resource_spec(m1.resource_spec(x)->Ok_0)->Ok_0)
    &&& forall|x: StackId| #[trigger] m1.stack_spec(x) is Ok && m2.stack_spec(m1.stack_spec(x)->Ok_0) is Ok ==> m12.stack_spec(x) == Ok::<StackId, M12::Error>(m2.stack_spec(m1.stack_spec(x)->Ok_0)->Ok_0)
    &&& forall|x: TagId| #[trigger] m1.tag_spec(x) is Ok && m2.tag_spec(m1.tag_spec(x)->Ok_0) is Ok ==> m12.tag_spec(x) == Ok::<TagId, M12::Error>(m2.tag_spec(m1.tag_spec(x)->Ok_0)->Ok_0)
    &&& forall|x: TagClassId| #[trigger] m1.tag_class_spec(x) is Ok && m2.tag_class_spec(m1.tag_class_spec(x)->Ok_0) is Ok ==> m12.tag_class_spec(x) == Ok::<TagClassId, M12::Error>(m2.tag_class_spec(m1.tag_class_spec(x)->Ok_0)->Ok_0)
    &&& forall|x: ParamId| #[trigger] m1.param_spec(x) is Ok && m2.param_spec(m1.param_spec(x)->Ok_0) is Ok ==> m12.param_spec(x) == Ok::<ParamId, M12::Error>(m2.param_spec(m1.param_spec(x)->Ok_0)->Ok_0)
    &&& forall|x: EventId| #[trigger] m1.event_spec(x) is Ok && m2.event_spec(m1.event_spec(x)->Ok_0) is Ok ==> m12.event_spec(x) == Ok::<EventId, M12::Error>(m2.event_spec(m1.event_spec(x)->Ok_0)->Ok_0)
    &&& forall|x: BuffId| #[trigger] m1.buff_spec(x) is Ok && m2.buff_spec(m1.buff_spec(x)->Ok_0) is Ok ==> m12.buff_spec(x) == Ok::<BuffId, M12::Error>(m2.buff_spec(m1.buff_spec(x)->Ok_0)->Ok_0)
    &&& forall|x: CurveId| #[trigger] m1.curve_spec(x) is Ok && m2.curve_spec(m1.curve_spec(x)->Ok_0) is Ok ==> m12.curve_spec(x) == Ok::<CurveId, M12::Error>(m2.curve_spec(m1.curve_spec(x)->Ok_0)->Ok_0)
    &&& forall|x: DamageTypeId| #[trigger] m1.damage_type_spec(x) is Ok && m2.damage_type_spec(m1.damage_type_spec(x)->Ok_0) is Ok ==> m12.damage_type_spec(x) == Ok::<DamageTypeId, M12::Error>(m2.damage_type_spec(m1.damage_type_spec(x)->Ok_0)->Ok_0)
    &&& forall|x: AbilityId| #[trigger] m1.ability_spec(x) is Ok && m2.ability_spec(m1.ability_spec(x)->Ok_0) is Ok ==> m12.ability_spec(x) == Ok::<AbilityId, M12::Error>(m2.ability_spec(m1.ability_spec(x)->Ok_0)->Ok_0)
    &&& forall|x: TalentId| #[trigger] m1.talent_spec(x) is Ok && m2.talent_spec(m1.talent_spec(x)->Ok_0) is Ok ==> m12.talent_spec(x) == Ok::<TalentId, M12::Error>(m2.talent_spec(m1.talent_spec(x)->Ok_0)->Ok_0)
    &&& forall|x: HandlerId| #[trigger] m1.handler_spec(x) is Ok && m2.handler_spec(m1.handler_spec(x)->Ok_0) is Ok ==> m12.handler_spec(x) == Ok::<HandlerId, M12::Error>(m2.handler_spec(m1.handler_spec(x)->Ok_0)->Ok_0)
    &&& forall|x: UnitId| #[trigger] m1.unit_spec(x) is Ok && m2.unit_spec(m1.unit_spec(x)->Ok_0) is Ok ==> m12.unit_spec(x) == Ok::<UnitId, M12::Error>(m2.unit_spec(m1.unit_spec(x)->Ok_0)->Ok_0)
    &&& forall|x: NavMeshId| #[trigger] m1.navmesh_spec(x) is Ok && m2.navmesh_spec(m1.navmesh_spec(x)->Ok_0) is Ok ==> m12.navmesh_spec(x) == Ok::<NavMeshId, M12::Error>(m2.navmesh_spec(m1.navmesh_spec(x)->Ok_0)->Ok_0)
    &&& forall|x: AnimStateId| #[trigger] m1.anim_state_spec(x) is Ok && m2.anim_state_spec(m1.anim_state_spec(x)->Ok_0) is Ok ==> m12.anim_state_spec(x) == Ok::<AnimStateId, M12::Error>(m2.anim_state_spec(m1.anim_state_spec(x)->Ok_0)->Ok_0)
    &&& forall|x: SlotRef| #[trigger] m1.slot_ref_spec(x) is Ok && m2.slot_ref_spec(m1.slot_ref_spec(x)->Ok_0) is Ok ==> m12.slot_ref_spec(x) == Ok::<SlotRef, M12::Error>(m2.slot_ref_spec(m1.slot_ref_spec(x)->Ok_0)->Ok_0)
}

/// The map that translates nothing: every handle comes back as itself.
#[derive(Clone, Copy, Debug)]
pub struct KeepIds;

impl IdMap for KeepIds {
    type Error = ();

    open spec fn stat_spec(&self, id: StatId) -> Result<StatId, ()> {
        Ok(id)
    }

    fn stat(&self, id: StatId) -> (r: Result<StatId, ()>) {
        Ok(id)
    }

    open spec fn resource_spec(&self, id: ResourceId) -> Result<ResourceId, ()> {
        Ok(id)
    }

    fn resource(&self, id: ResourceId) -> (r: Result<ResourceId, ()>) {
        Ok(id)
    }

    open spec fn stack_spec(&self, id: StackId) -> Result<StackId, ()> {
        Ok(id)
    }

    fn stack(&self, id: StackId) -> (r: Result<StackId, ()>) {
        Ok(id)
    }

    open spec fn tag_spec(&self, id: TagId) -> Result<TagId, ()> {
        Ok(id)
    }

    fn tag(&self, id: TagId) -> (r: Result<TagId, ()>) {
        Ok(id)
    }

    open spec fn tag_class_spec(&self, id: TagClassId) -> Result<TagClassId, ()> {
        Ok(id)
    }

    fn tag_class(&self, id: TagClassId) -> (r: Result<TagClassId, ()>) {
        Ok(id)
    }

    open spec fn param_spec(&self, id: ParamId) -> Result<ParamId, ()> {
        Ok(id)
    }

    fn param(&self, id: ParamId) -> (r: Result<ParamId, ()>) {
        Ok(id)
    }

    open spec fn event_spec(&self, id: EventId) -> Result<EventId, ()> {
        Ok(id)
    }

    fn event(&self, id: EventId) -> (r: Result<EventId, ()>) {
        Ok(id)
    }

    open spec fn buff_spec(&self, id: BuffId) -> Result<BuffId, ()> {
        Ok(id)
    }

    fn buff(&self, id: BuffId) -> (r: Result<BuffId, ()>) {
        Ok(id)
    }

    open spec fn curve_spec(&self, id: CurveId) -> Result<CurveId, ()> {
        Ok(id)
    }

    fn curve(&self, id: CurveId) -> (r: Result<CurveId, ()>) {
        Ok(id)
    }

    open spec fn damage_type_spec(&self, id: DamageTypeId) -> Result<DamageTypeId, ()> {
        Ok(id)
    }

    fn damage_type(&self, id: DamageTypeId) -> (r: Result<DamageTypeId, ()>) {
        Ok(id)
    }

    open spec fn ability_spec(&self, id: AbilityId) -> Result<AbilityId, ()> {
        Ok(id)
    }

    fn ability(&self, id: AbilityId) -> (r: Result<AbilityId, ()>) {
        Ok(id)
    }

    open spec fn talent_spec(&self, id: TalentId) -> Result<TalentId, ()> {
        Ok(id)
    }

    fn talent(&self, id: TalentId) -> (r: Result<TalentId, ()>) {
        Ok(id)
    }

    open spec fn handler_spec(&self, id: HandlerId) -> Result<HandlerId, ()> {
        Ok(id)
    }

    fn handler(&self, id: HandlerId) -> (r: Result<HandlerId, ()>) {
        Ok(id)
    }

    open spec fn unit_spec(&self, id: UnitId) -> Result<UnitId, ()> {
        Ok(id)
    }

    fn unit(&self, id: UnitId) -> (r: Result<UnitId, ()>) {
        Ok(id)
    }

    open spec fn navmesh_spec(&self, id: NavMeshId) -> Result<NavMeshId, ()> {
        Ok(id)
    }

    fn navmesh(&self, id: NavMeshId) -> (r: Result<NavMeshId, ()>) {
        Ok(id)
    }

    open spec fn anim_state_spec(&self, id: AnimStateId) -> Result<AnimStateId, ()> {
        Ok(id)
    }

    fn anim_state(&self, id: AnimStateId) -> (r: Result<AnimStateId, ()>) {
        Ok(id)
    }

    open spec fn slot_ref_spec(&self, id: SlotRef) -> Result<SlotRef, ()> {
        Ok(id)
    }

    fn slot_ref(&self, id: SlotRef) -> (r: Result<SlotRef, ()>) {
        Ok(id)
    }

}

/// The contents of a descriptor, compared field by field: handles, numbers and
/// switches equal, nested descriptors recursively so, sequences element-wise.
pub trait Contents: Sized {
    /// Whether `self` and `other` hold the same contents.
    spec fn same_as(&self, other: Self) -> bool;
}

/// In-place translation of every interned handle inside `self` through a map.
/// On success the tree is `self` with every handle translated; on failure the
/// map's first error in walk order is returned and the tree is rewritten up to
/// that point and untouched after it (callers that need atomicity remap a
/// clone).
pub trait RemapIds<M: IdMap>: Contents {
    /// The first error the walk over `self` meets, or `Ok`.
    spec fn remap_check(&self, m: &M) -> Result<(), M::Error>;

    /// Whether `new` is `self` with every interned handle translated through `m`.
    spec fn remaps_to(&self, m: &M, new: Self) -> bool;

    /// Whether `new` is `self` after a walk through `m` that stopped at its
    /// first error: every handle the walk passed before it translated, the
    /// handle that failed left as it was, everything after it untouched.
    spec fn walked_to(&self, m: &M, new: Self) -> bool;

    /// Translate every interned handle inside `self` through `m`.
    fn remap_ids(&mut self, m: &M) -> (r: Result<(), M::Error>)
        ensures
            r == old(self).remap_check(m),
            r is Ok ==> old(self).remaps_to(m, *final(self)),
            r is Err ==> old(self).walked_to(m, *final(self)),
    ;

    /// A total map never makes the walk fail.
    proof fn lemma_total(&self, m: &M)
        requires
            total(m),
        ensures
            self.remap_check(m) is Ok,
    ;

    /// A map that keeps every handle leaves the contents as they were.
    proof fn lemma_identity(&self, m: &M, new: Self)
        requires
            keeps_ids(m),
            self.remaps_to(m, new),
        ensures
            self.same_as(new),
    ;

    /// Through a settling map, translating a translated tree changes nothing.
    proof fn lemma_stable(&self, m: &M, a: Self, b: Self)
        requires
            settles(m),
            self.remaps_to(m, a),
            a.remaps_to(m, b),
        ensures
            a.same_as(b),
    ;

    /// A walk that failed part-way through a map that keeps every handle leaves
    /// the contents as they were.
    proof fn lemma_walk_keeps(&self, m: &M, new: Self)
        requires
            keeps_ids(m),
            self.walked_to(m, new),
        ensures
            self.same_as(new),
    ;

    /// Every tree holds the same contents as itself.
    proof fn lemma_same_refl(&self, m: &M)
        ensures
            self.same_as(*self),
    ;
}

/// What walks through two maps one after the other say of each other.
pub trait RemapPair<M1: IdMap, M2: IdMap>: RemapIds<M1> + RemapIds<M2> {
    /// A tree walked through `m1` passes a walk through a map that takes
    /// everything `m1` produces.
    proof fn lemma_lands(&self, m1: &M1, m2: &M2, a: Self)
        requires
            lands_in(m1, m2),
            RemapIds::<M1>::remaps_to(self, m1, a),
        ensures
            RemapIds::<M2>::remap_check(&a, m2) is Ok,
    ;

    /// Walking a tree walked through `m1` again through a map that keeps what
    /// `m1` produces changes nothing.
    proof fn lemma_fixed(&self, m1: &M1, m2: &M2, a: Self, b: Self)
        requires
            fixes_outputs(m1, m2),
            RemapIds::<M1>::remaps_to(self, m1, a),
            RemapIds::<M2>::remaps_to(&a, m2, b),
        ensures
            a.same_as(b),
    ;
}

/// Walking through two maps is walking through their composite.
pub trait RemapCompose<M1: IdMap, M2: IdMap, M12: IdMap>: RemapIds<M1> + RemapIds<M2> + RemapIds<M12> {
    /// What a walk through `m1` and then `m2` produces is what one walk through
    /// the composite produces.
    proof fn lemma_compose(&self, m1: &M1, m2: &M2, m12: &M12, a: Self, b: Self)
        requires
            composes(m1, m2, m12),
            RemapIds::<M1>::remaps_to(self, m1, a),
            RemapIds::<M2>::remaps_to(&a, m2, b),
        ensures
            RemapIds::<M12>::remaps_to(self, m12, b),
    ;
}

/// A sequence whose every element passes the walk passes it.
proof fn lemma_seq_ok_of_all<M: IdMap, T: RemapIds<M>>(t: Seq<T>, m: &M)
    requires
        forall|i: int| 0 <= i < t.len() ==> (#[trigger] t[i]).remap_check(m) is Ok,
    ensures
        seq_check(t, m) is Ok,
    decreases t.len(),
{
    if t.len() > 0 {
        assert forall|i: int| 0 <= i < t.drop_last().len() implies (#[trigger] t.drop_last()[i]).remap_check(m) is Ok by {
            assert(t.drop_last()[i] == t[i]);
        }
        lemma_seq_ok_of_all(t.drop_last(), m);
        assert(t[t.len() - 1].remap_check(m) is Ok);
    }
}

/// Whether `t` is `s` after a walk through `m` that stopped at its first error:
/// the elements before the one that failed translated, that one walked
/// likewise, the ones after untouched.
pub open spec fn seq_walked<M: IdMap, T: RemapIds<M>>(s: Seq<T>, m: &M, t: Seq<T>) -> bool {
    s.len() == t.len() && forall|i: int|
        #![trigger s[i]]
        0 <= i < s.len() ==> {
            &&& (seq_check(s.take(i), m) is Ok && s[i].remap_check(m) is Ok) ==> s[i].remaps_to(m, t[i])
            &&& (seq_check(s.take(i), m) is Ok && s[i].remap_check(m) is Err) ==> s[i].walked_to(m, t[i])
            &&& seq_check(s.take(i), m) is Err ==> t[i] == s[i]
        }
}

/// Once a prefix of the walk passes, every shorter prefix and every element
/// in it passes.
proof fn lemma_seq_prefix_ok<M: IdMap, T: RemapIds<M>>(s: Seq<T>, m: &M, i: int, j: int)
    requires
        0 <= j < i <= s.len(),
        seq_check(s.take(i), m) is Ok,
    ensures
        seq_check(s.take(j), m) is Ok,
        s[j].remap_check(m) is Ok,
{
    if seq_check(s.take(j + 1), m) is Err {
        assert(s.take(i).take(j + 1) =~= s.take(j + 1));
        lemma_seq_err(s.take(i), m, j + 1);
    }
    assert(s.take(j + 1).drop_last() =~= s.take(j));
    assert(s.take(j + 1).last() == s[j]);
}

/// A walk that stopped at element `i`: translated before it, `i` walked, the
/// rest untouched.
proof fn lemma_seq_walked_at<M: IdMap, T: RemapIds<M>>(s: Seq<T>, m: &M, i: int, t: Seq<T>)
    requires
        0 <= i < s.len(),
        t.len() == s.len(),
        seq_check(s.take(i), m) is Ok,
        s[i].remap_check(m) is Err,
        forall|j: int| 0 <= j < i ==> (#[trigger] s[j]).remaps_to(m, t[j]),
        s[i].walked_to(m, t[i]),
        forall|j: int| i < j < s.len() ==> #[trigger] t[j] == s[j],
    ensures
        seq_walked(s, m, t),
{
    lemma_seq_err_after(s, m, i);
    assert forall|j: int| 0 <= j < s.len() implies {
        &&& (seq_check(s.take(j), m) is Ok && (#[trigger] s[j]).remap_check(m) is Ok) ==> s[j].remaps_to(m, t[j])
        &&& (seq_check(s.take(j), m) is Ok && s[j].remap_check(m) is Err) ==> s[j].walked_to(m, t[j])
        &&& seq_check(s.take(j), m) is Err ==> t[j] == s[j]
    } by {
        if j < i {
            lemma_seq_prefix_ok(s, m, i, j);
        } else if j > i {
            assert(seq_check(s.take(j), m) is Err);
        }
    }
}

proof fn lemma_seq_err_after<M: IdMap, T: RemapIds<M>>(s: Seq<T>, m: &M, i: int)
    requires
        0 <= i < s.len(),
        seq_check(s.take(i), m) is Ok,
        s[i].remap_check(m) is Err,
    ensures
        forall|j: int| i < j <= s.len() ==> #[trigger] seq_check(s.take(j), m) is Err,
{
    assert(s.take(i + 1).drop_last() =~= s.take(i));
    assert forall|j: int| i < j <= s.len() implies #[trigger] seq_check(s.take(j), m) is Err by {
        assert(s.take(j).take(i + 1) =~= s.take(i + 1));
        lemma_seq_err(s.take(j), m, i + 1);
    }
}

/// The first error the walk over a sequence meets, in order.
pub open spec fn seq_check<M: IdMap, T: RemapIds<M>>(s: Seq<T>, m: &M) -> Result<(), M::Error>
    decreases s.len(),
{
    if s.len() == 0 {
        Ok(())
    } else {
        then(seq_check(s.drop_last(), m), s.last().remap_check(m))
    }
}

proof fn lemma_seq_prefix<M: IdMap, T: RemapIds<M>>(s: Seq<T>, m: &M, i: int)
    requires
        0 <= i < s.len(),
        seq_check(s.take(i), m) is Ok,
    ensures
        seq_check(s.take(i + 1), m) == then(seq_check(s.take(i), m), s[i].remap_check(m)),
{
    assert(s.take(i + 1).drop_last() =~= s.take(i));
}

proof fn lemma_seq_err<M: IdMap, T: RemapIds<M>>(s: Seq<T>, m: &M, k: int)
    requires
        0 <= k <= s.len(),
        seq_check(s.take(k), m) is Err,
    ensures
        seq_check(s, m) == seq_check(s.take(k), m),
    decreases s.len() - k,
{
    if k < s.len() {
        assert(s.take(k + 1).drop_last() =~= s.take(k));
        lemma_seq_err(s, m, k + 1);
    } else {
        assert(s.take(k) =~= s);
    }
}

proof fn lemma_seq_total<M: IdMap, T: RemapIds<M>>(s: Seq<T>, m: &M)
    requires
        total(m),
    ensures
        seq_check(s, m) is Ok,
    decreases s.len(),
{
    if s.len() > 0 {
        lemma_seq_total(s.drop_last(), m);
        s.last().lemma_total(m);
    }
}

impl<T: Contents> Contents for Vec<T> {
    open spec fn same_as(&self, other: Self) -> bool {
        self@.len() == other@.len() && forall|i: int| 0 <= i < self@.len() ==> (#[trigger] self@[i]).same_as(other@[i])
    }
}

impl<M: IdMap, T: RemapIds<M>> RemapIds<M> for Vec<T> {
    open spec fn remap_check(&self, m: &M) -> Result<(), M::Error> {
        seq_check(self@, m)
    }

    open spec fn remaps_to(&self, m: &M, new: Self) -> bool {
        self@.len() == new@.len() && forall|i: int| 0 <= i < self@.len() ==> (#[trigger] self@[i]).remaps_to(m, new@[i])
    }

    open spec fn walked_to(&self, m: &M, new: Self) -> bool {
        seq_walked(self@, m, new@)
    }

    #[verifier::rlimit(40)]
    fn remap_ids(&mut self, m: &M) -> (r: Result<(), M::Error>) {
        let ghost orig = self@;
        let n = self.len();
        let mut i: usize = 0;
        assert(orig.take(0) =~= Seq::<T>::empty());
        while i < n
            invariant
                orig == old(self)@,
                n == self@.len(),
                self@.len() == orig.len(),
                i <= n,
                seq_check(orig.take(i as int), m) is Ok,
                forall|j: int| i <= j < n ==> self@[j] == orig[j],
                forall|j: int| 0 <= j < i ==> (#[trigger] orig[j]).remaps_to(m, self@[j]),
            decreases n - i,
        {
            proof {
                lemma_seq_prefix(orig, m, i as int);
            }
            let r = self[i].remap_ids(m);
            if r.is_err() {
                proof {
                    lemma_seq_err(orig, m, i + 1);
                    lemma_seq_walked_at(orig, m, i as int, self@);
                }
                return r;
            }
            i = i + 1;
        }
        proof {
            assert(orig.take(n as int) =~= orig);
            lemma_unit_ok(seq_check(orig, m));
        }
        Ok(())
    }

    proof fn lemma_total(&self, m: &M) {
        lemma_seq_total(self@, m);
    }

    proof fn lemma_identity(&self, m: &M, new: Self) {
        assert forall|i: int| 0 <= i < self@.len() implies (#[trigger] self@[i]).same_as(new@[i]) by {
            self@[i].lemma_identity(m, new@[i]);
        }
    }

    proof fn lemma_stable(&self, m: &M, a: Self, b: Self) {
        assert forall|i: int| 0 <= i < a@.len() implies (#[trigger] a@[i]).same_as(b@[i]) by {
            self@[i].lemma_stable(m, a@[i], b@[i]);
        }
    }

    proof fn lemma_walk_keeps(&self, m: &M, new: Self) {
        let s = self@;
        let t = new@;
        assert forall|i: int| 0 <= i < s.len() implies (#[trigger] s[i]).same_as(t[i]) by {
            if seq_check(s.take(i), m) is Ok {
                if s[i].remap_check(m) is Ok {
                    s[i].lemma_identity(m, t[i]);
                } else {
                    s[i].lemma_walk_keeps(m, t[i]);
                }
            } else {
                s[i].lemma_same_refl(m);
            }
        }
    }

    proof fn lemma_same_refl(&self, m: &M) {
        assert forall|i: int| 0 <= i < self@.len() implies (#[trigger] self@[i]).same_as(self@[i]) by {
            self@[i].lemma_same_refl(m);
        }
    }
}

impl<T: Contents> Contents for Option<T> {
    open spec fn same_as(&self, other: Self) -> bool {
        match (*self, other) {
            (Some(x), Some(y)) => x.same_as(y),
            (None, None) => true,
            _ => false,
        }
    }
}

impl<M: IdMap, T: RemapIds<M>> RemapIds<M> for Option<T> {
    open spec fn remap_check(&self, m: &M) -> Result<(), M::Error> {
        match *self {
            Some(x) => x.remap_check(m),
            None => Ok(()),
        }
    }

    open spec fn remaps_to(&self, m: &M, new: Self) -> bool {
        match (*self, new) {
            (Some(x), Some(y)) => x.remaps_to(m, y),
            (None, None) => true,
            _ => false,
        }
    }

    open spec fn walked_to(&self, m: &M, new: Self) -> bool {
        match (*self, new) {
            (Some(x), Some(y)) => x.walked_to(m, y),
            (None, None) => true,
            _ => false,
        }
    }

    fn remap_ids(&mut self, m: &M) -> (r: Result<(), M::Error>) {
        match self {
            Some(x) => x.remap_ids(m),
            None => Ok(()),
        }
    }

    proof fn lemma_total(&self, m: &M) {
        match *self {
            Some(x) => x.lemma_total(m),
            None => {},
        }
    }

    proof fn lemma_identity(&self, m: &M, new: Self) {
        match (*self, new) {
            (Some(x), Some(y)) => x.lemma_identity(m, y),
            _ => {},
        }
    }

    proof fn lemma_stable(&self, m: &M, a: Self, b: Self) {
        match (*self, a, b) {
            (Some(x), Some(y), Some(z)) => x.lemma_stable(m, y, z),
            _ => {},
        }
    }

    proof fn lemma_walk_keeps(&self, m: &M, new: Self) {
        match (*self, new) {
            (Some(x), Some(y)) => x.lemma_walk_keeps(m, y),
            _ => {},
        }
    }

    proof fn lemma_same_refl(&self, m: &M) {
        match *self {
            Some(x) => x.lemma_same_refl(m),
            None => {},
        }
    }
}

impl<M1: IdMap, M2: IdMap, T: RemapPair<M1, M2>> RemapPair<M1, M2> for Vec<T> {
    proof fn lemma_lands(&self, m1: &M1, m2: &M2, a: Self) {
        assert forall|i: int| 0 <= i < a@.len() implies RemapIds::<M2>::remap_check(&#[trigger] a@[i], m2) is Ok by {
            self@[i].lemma_lands(m1, m2, a@[i]);
        }
        lemma_seq_ok_of_all::<M2, T>(a@, m2);
    }

    proof fn lemma_fixed(&self, m1: &M1, m2: &M2, a: Self, b: Self) {
        assert forall|i: int| 0 <= i < a@.len() implies (#[trigger] a@[i]).same_as(b@[i]) by {
            self@[i].lemma_fixed(m1, m2, a@[i], b@[i]);
        }
    }
}

impl<M1: IdMap, M2: IdMap, M12: IdMap, T: RemapCompose<M1, M2, M12>> RemapCompose<M1, M2, M12> for Vec<T> {
    proof fn lemma_compose(&self, m1: &M1, m2: &M2, m12: &M12, a: Self, b: Self) {
        assert forall|i: int| 0 <= i < self@.len() implies RemapIds::<M12>::remaps_to(&#[trigger] self@[i], m12, b@[i]) by {
            self@[i].lemma_compose(m1, m2, m12, a@[i], b@[i]);
        }
    }
}

impl<M1: IdMap, M2: IdMap, T: RemapPair<M1, M2>> RemapPair<M1, M2> for Option<T> {
    proof fn lemma_lands(&self, m1: &M1, m2: &M2, a: Self) {
        match (*self, a) {
            (Some(x), Some(y)) => x.lemma_lands(m1, m2, y),
            _ => {},
        }
    }

    proof fn lemma_fixed(&self, m1: &M1, m2: &M2, a: Self, b: Self) {
        match (*self, a, b) {
            (Some(x), Some(y), Some(z)) => x.lemma_fixed(m1, m2, y, z),
            _ => {},
        }
    }
}

impl<M1: IdMap, M2: IdMap, M12: IdMap, T: RemapCompose<M1, M2, M12>> RemapCompose<M1, M2, M12> for Option<T> {
    proof fn lemma_compose(&self, m1: &M1, m2: &M2, m12: &M12, a: Self, b: Self) {
        match (*self, a, b) {
            (Some(x), Some(y), Some(z)) => x.lemma_compose(m1, m2, m12, y, z),
            _ => {},
        }
    }
}

/// The first error translating one `TagId` meets.
pub open spec fn tag_check<M: IdMap>(x: TagId, m: &M) -> Result<(), M::Error> {
    leaf(m.tag_spec(x))
}

/// Whether `y` is `x` translated through `m`.
pub open spec fn tag_remaps<M: IdMap>(x: TagId, m: &M, y: TagId) -> bool {
    m.tag_spec(x) == Ok::<TagId, M::Error>(y)
}

/// Whether `x` and `y` are the same handle.
pub open spec fn tag_same(x: TagId, y: TagId) -> bool {
    x == y
}

/// Whether `y` is `x` left as it was by a translation that failed.
pub open spec fn tag_walked<M: IdMap>(x: TagId, m: &M, y: TagId) -> bool {
    x == y
}

/// Translate one `TagId` through `m`.
pub fn remap_tag<M: IdMap>(x: &mut TagId, m: &M) -> (r: Result<(), M::Error>)
    ensures
        r == tag_check(*old(x), m),
        r is Ok ==> tag_remaps(*old(x), m, *final(x)),
        r is Err ==> tag_walked(*old(x), m, *final(x)),
{
    match m.tag(*x) {
        Ok(v) => {
            *x = v;
            Ok(())
        },
        Err(e) => Err(e),
    }
}

proof fn lemma_tag_total<M: IdMap>(x: TagId, m: &M)
    requires
        total(m),
    ensures
        tag_check(x, m) is Ok,
{
}

proof fn lemma_tag_identity<M: IdMap>(x: TagId, m: &M, y: TagId)
    requires
        keeps_ids(m),
        tag_remaps(x, m, y),
    ensures
        tag_same(x, y),
{
}

proof fn lemma_tag_stable<M: IdMap>(x: TagId, m: &M, a: TagId, b: TagId)
    requires
        settles(m),
        tag_remaps(x, m, a),
        tag_remaps(a, m, b),
    ensures
        tag_same(a, b),
{
}

proof fn lemma_tag_walk_keeps<M: IdMap>(x: TagId, m: &M, y: TagId)
    requires
        keeps_ids(m),
        tag_walked(x, m, y),
    ensures
        tag_same(x, y),
{
}

proof fn lemma_tag_same_refl<M: IdMap>(x: TagId, m: &M)
    ensures
        tag_same(x, x),
{
}

proof fn lemma_tag_lands<M1: IdMap, M2: IdMap>(x: TagId, m1: &M1, m2: &M2, a: TagId)
    requires
        lands_in(m1, m2),
        tag_remaps(x, m1, a),
    ensures
        tag_check(a, m2) is Ok,
{
}

proof fn lemma_tag_fixed<M1: IdMap, M2: IdMap>(x: TagId, m1: &M1, m2: &M2, a: TagId, b: TagId)
    requires
        fixes_outputs(m1, m2),
        tag_remaps(x, m1, a),
        tag_remaps(a, m2, b),
    ensures
        tag_same(a, b),
{
}

proof fn lemma_tag_compose<M1: IdMap, M2: IdMap, M12: IdMap>(x: TagId, m1: &M1, m2: &M2, m12: &M12, a: TagId, b: TagId)
    requires
        composes(m1, m2, m12),
        tag_remaps(x, m1, a),
        tag_remaps(a, m2, b),
    ensures
        tag_remaps(x, m12, b),
{
}

/// The first error the walk over a `(ParamId, Value)` meets, in walk order.
pub open spec fn param_entry_check<M: IdMap>(x: (ParamId, Value), m: &M) -> Result<(), M::Error>
{
    then(leaf(m.param_spec(x.0)), x.1.remap_check(m))
}

/// Whether `y` is `x` with every interned handle translated through `m`.
pub open spec fn param_entry_remaps<M: IdMap>(x: (ParamId, Value), m: &M, y: (ParamId, Value)) -> bool
{
    m.param_spec(x.0) == Ok::<ParamId, M::Error>(y.0)
            && x.1.remaps_to(m, y.1)
}

/// Whether `x` and `y` hold the same contents.
pub open spec fn param_entry_same(x: (ParamId, Value), y: (ParamId, Value)) -> bool
{
    x.0 == y.0
            && x.1.same_as(y.1)
}

/// Whether `y` is `x` after a walk through `m` that stopped at its first
/// error: what it passed translated, the part that failed walked likewise,
/// the rest untouched.
pub open spec fn param_entry_walked<M: IdMap>(x: (ParamId, Value), m: &M, y: (ParamId, Value)) -> bool
{
    (if (leaf(m.param_spec(x.0))) is Err { x.0 == y.0 && x.1 == y.1 } else { m.param_spec(x.0) == Ok::<ParamId, M::Error>(y.0) && (if (x.1.remap_check(m)) is Err { x.1.walked_to(m, y.1) } else { x.1.remaps_to(m, y.1) && true }) })
}

/// Translate every interned handle inside `x` through `m`, stopping at the
/// map's first error.
#[verifier::rlimit(60)]
#[verifier::spinoff_prover]
pub fn remap_param_entry<M: IdMap>(x: &mut (ParamId, Value), m: &M) -> (r: Result<(), M::Error>)
    ensures
        r == param_entry_check(*old(x), m),
        r is Ok ==> param_entry_remaps(*old(x), m, *final(x)),
        r is Err ==> param_entry_walked(*old(x), m, *final(x)),
{
    match m.param(x.0) {
        Ok(v) => { x.0 = v; },
        Err(e) => { return Err(e); },
    }
    let r = x.1.remap_ids(m);
    if r.is_err() {
        return r;
    }
    Ok(())
}

proof fn lemma_param_entry_total<M: IdMap>(x: (ParamId, Value), m: &M)
    requires
        total(m),
    ensures
        param_entry_check(x, m) is Ok,
{
    x.1.lemma_total(m);
}

proof fn lemma_param_entry_identity<M: IdMap>(x: (ParamId, Value), m: &M, y: (ParamId, Value))
    requires
        keeps_ids(m),
        param_entry_remaps(x, m, y),
    ensures
        param_entry_same(x, y),
{
    x.1.lemma_identity(m, y.1);
}

proof fn lemma_param_entry_stable<M: IdMap>(x: (ParamId, Value), m: &M, a: (ParamId, Value), b: (ParamId, Value))
    requires
        settles(m),
        param_entry_remaps(x, m, a),
        param_entry_remaps(a, m, b),
    ensures
        param_entry_same(a, b),
{
    x.1.lemma_stable(m, a.1, b.1);
}

#[verifier::rlimit(60)]
#[verifier::spinoff_prover]
proof fn lemma_param_entry_walk_keeps<M: IdMap>(x: (ParamId, Value), m: &M, y: (ParamId, Value))
    requires
        keeps_ids(m),
        param_entry_walked(x, m, y),
    ensures
        param_entry_same(x, y),
{
    if (leaf(m.param_spec(x.0))) is Err { x.1.lemma_same_refl(m); } else {  if (x.1.remap_check(m)) is Err { x.1.lemma_walk_keeps(m, y.1); } else { x.1.lemma_identity(m, y.1);  } }
}

proof fn lemma_param_entry_same_refl<M: IdMap>(x: (ParamId, Value), m: &M)
    ensures
        param_entry_same(x, x),
{
    x.1.lemma_same_refl(m);
}

proof fn lemma_param_entry_lands<M1: IdMap, M2: IdMap>(x: (ParamId, Value), m1: &M1, m2: &M2, a: (ParamId, Value))
    requires
        lands_in(m1, m2),
        param_entry_remaps(x, m1, a),
    ensures
        param_entry_check(a, m2) is Ok,
{
    x.1.lemma_lands(m1, m2, a.1);
}

proof fn lemma_param_entry_fixed<M1: IdMap, M2: IdMap>(x: (ParamId, Value), m1: &M1, m2: &M2, a: (ParamId, Value), b: (ParamId, Value))
    requires
        fixes_outputs(m1, m2),
        param_entry_remaps(x, m1, a),
        param_entry_remaps(a, m2, b),
    ensures
        param_entry_same(a, b),
{
    x.1.lemma_fixed(m1, m2, a.1, b.1);
}

proof fn lemma_param_entry_compose<M1: IdMap, M2: IdMap, M12: IdMap>(x: (ParamId, Value), m1: &M1, m2: &M2, m12: &M12, a: (ParamId, Value), b: (ParamId, Value))
    requires
        composes(m1, m2, m12),
        param_entry_remaps(x, m1, a),
        param_entry_remaps(a, m2, b),
    ensures
        param_entry_remaps(x, m12, b),
{
    x.1.lemma_compose(m1, m2, m12, a.1, b.1);
}

/// The first error the walk over a `(TagId, TagClassId)` meets, in walk order.
pub open spec fn tag_class_entry_check<M: IdMap>(x: (TagId, TagClassId), m: &M) -> Result<(), M::Error>
{
    then(leaf(m.tag_spec(x.0)), leaf(m.tag_class_spec(x.1)))
}

/// Whether `y` is `x` with every interned handle translated through `m`.
pub open spec fn tag_class_entry_remaps<M: IdMap>(x: (TagId, TagClassId), m: &M, y: (TagId, TagClassId)) -> bool
{
    m.tag_spec(x.0) == Ok::<TagId, M::Error>(y.0)
            && m.tag_class_spec(x.1) == Ok::<TagClassId, M::Error>(y.1)
}

/// Whether `x` and `y` hold the same contents.
pub open spec fn tag_class_entry_same(x: (TagId, TagClassId), y: (TagId, TagClassId)) -> bool
{
    x.0 == y.0
            && x.1 == y.1
}

/// Whether `y` is `x` after a walk through `m` that stopped at its first
/// error: what it passed translated, the part that failed walked likewise,
/// the rest untouched.
pub open spec fn tag_class_entry_walked<M: IdMap>(x: (TagId, TagClassId), m: &M, y: (TagId, TagClassId)) -> bool
{
    (if (leaf(m.tag_spec(x.0))) is Err { x.0 == y.0 && x.1 == y.1 } else { m.tag_spec(x.0) == Ok::<TagId, M::Error>(y.0) && (if (leaf(m.tag_class_spec(x.1))) is Err { x.1 == y.1 } else { m.tag_class_spec(x.1) == Ok::<TagClassId, M::Error>(y.1) && true }) })
}

/// Translate every interned handle inside `x` through `m`, stopping at the
/// map's first error.
#[verifier::rlimit(60)]
#[verifier::spinoff_prover]
pub fn remap_tag_class_entry<M: IdMap>(x: &mut (TagId, TagClassId), m: &M) -> (r: Result<(), M::Error>)
    ensures
        r == tag_class_entry_check(*old(x), m),
        r is Ok ==> tag_class_entry_remaps(*old(x), m, *final(x)),
        r is Err ==> tag_class_entry_walked(*old(x), m, *final(x)),
{
    match m.tag(x.0) {
        Ok(v) => { x.0 = v; },
        Err(e) => { return Err(e); },
    }
    match m.tag_class(x.1) {
        Ok(v) => { x.1 = v; },
        Err(e) => { return Err(e); },
    }
    Ok(())
}

proof fn lemma_tag_class_entry_total<M: IdMap>(x: (TagId, TagClassId), m: &M)
    requires
        total(m),
    ensures
        tag_class_entry_check(x, m) is Ok,
{

}

proof fn lemma_tag_class_entry_identity<M: IdMap>(x: (TagId, TagClassId), m: &M, y: (TagId, TagClassId))
    requires
        keeps_ids(m),
        tag_class_entry_remaps(x, m, y),
    ensures
        tag_class_entry_same(x, y),
{

}

proof fn lemma_tag_class_entry_stable<M: IdMap>(x: (TagId, TagClassId), m: &M, a: (TagId, TagClassId), b: (TagId, TagClassId))
    requires
        settles(m),
        tag_class_entry_remaps(x, m, a),
        tag_class_entry_remaps(a, m, b),
    ensures
        tag_class_entry_same(a, b),
{

}

#[verifier::rlimit(60)]
#[verifier::spinoff_prover]
proof fn lemma_tag_class_entry_walk_keeps<M: IdMap>(x: (TagId, TagClassId), m: &M, y: (TagId, TagClassId))
    requires
        keeps_ids(m),
        tag_class_entry_walked(x, m, y),
    ensures
        tag_class_entry_same(x, y),
{
    if (leaf(m.tag_spec(x.0))) is Err {  } else {  if (leaf(m.tag_class_spec(x.1))) is Err {  } else {   } }
}

proof fn lemma_tag_class_entry_same_refl<M: IdMap>(x: (TagId, TagClassId), m: &M)
    ensures
        tag_class_entry_same(x, x),
{

}

proof fn lemma_tag_class_entry_lands<M1: IdMap, M2: IdMap>(x: (TagId, TagClassId), m1: &M1, m2: &M2, a: (TagId, TagClassId))
    requires
        lands_in(m1, m2),
        tag_class_entry_remaps(x, m1, a),
    ensures
        tag_class_entry_check(a, m2) is Ok,
{

}

proof fn lemma_tag_class_entry_fixed<M1: IdMap, M2: IdMap>(x: (TagId, TagClassId), m1: &M1, m2: &M2, a: (TagId, TagClassId), b: (TagId, TagClassId))
    requires
        fixes_outputs(m1, m2),
        tag_class_entry_remaps(x, m1, a),
        tag_class_entry_remaps(a, m2, b),
    ensures
        tag_class_entry_same(a, b),
{

}

proof fn lemma_tag_class_entry_compose<M1: IdMap, M2: IdMap, M12: IdMap>(x: (TagId, TagClassId), m1: &M1, m2: &M2, m12: &M12, a: (TagId, TagClassId), b: (TagId, TagClassId))
    requires
        composes(m1, m2, m12),
        tag_class_entry_remaps(x, m1, a),
        tag_class_entry_remaps(a, m2, b),
    ensures
        tag_class_entry_remaps(x, m12, b),
{

}

/// The first error the walk over a `Value` meets, in walk order.
pub open spec fn value_check<M: IdMap>(x: Value, m: &M) -> Result<(), M::Error>
    decreases x,
{
    match x {
        Value::Const(x_0) => Ok(()),
        Value::Read(x_0) => then(x_0.remap_check(m), Ok(())),
        Value::Bin(x_0, x_1, x_2) => then(value_check(*x_1, m), value_check(*x_2, m)),
        Value::Clamp { v: x_v, lo: x_lo, hi: x_hi } => then(value_check(*x_v, m), then(value_check(*x_lo, m), value_check(*x_hi, m))),
        Value::Curve(x_0, x_1) => then(leaf(m.curve_spec(x_0)), value_check(*x_1, m)),
        Value::ScaleCtx => Ok(()),
    }
}

/// Whether `y` is `x` with every interned handle translated through `m`.
pub open spec fn value_remaps<M: IdMap>(x: Value, m: &M, y: Value) -> bool
    decreases x,
{
    match (x, y) {
        (Value::Const(x_0), Value::Const(y_0)) => x_0 == y_0,
        (Value::Read(x_0), Value::Read(y_0)) => x_0.remaps_to(m, y_0),
        (Value::Bin(x_0, x_1, x_2), Value::Bin(y_0, y_1, y_2)) => x_0 == y_0 && value_remaps(*x_1, m, *y_1) && value_remaps(*x_2, m, *y_2),
        (Value::Clamp { v: x_v, lo: x_lo, hi: x_hi }, Value::Clamp { v: y_v, lo: y_lo, hi: y_hi }) => value_remaps(*x_v, m, *y_v) && value_remaps(*x_lo, m, *y_lo) && value_remaps(*x_hi, m, *y_hi),
        (Value::Curve(x_0, x_1), Value::Curve(y_0, y_1)) => m.curve_spec(x_0) == Ok::<CurveId, M::Error>(y_0) && value_remaps(*x_1, m, *y_1),
        (Value::ScaleCtx, Value::ScaleCtx) => true,
        _ => false,
    }
}

/// Whether `x` and `y` hold the same contents.
pub open spec fn value_same(x: Value, y: Value) -> bool
    decreases x,
{
    match (x, y) {
        (Value::Const(x_0), Value::Const(y_0)) => x_0 == y_0,
        (Value::Read(x_0), Value::Read(y_0)) => x_0.same_as(y_0),
        (Value::Bin(x_0, x_1, x_2), Value::Bin(y_0, y_1, y_2)) => x_0 == y_0 && value_same(*x_1, *y_1) && value_same(*x_2, *y_2),
        (Value::Clamp { v: x_v, lo: x_lo, hi: x_hi }, Value::Clamp { v: y_v, lo: y_lo, hi: y_hi }) => value_same(*x_v, *y_v) && value_same(*x_lo, *y_lo) && value_same(*x_hi, *y_hi),
        (Value::Curve(x_0, x_1), Value::Curve(y_0, y_1)) => x_0 == y_0 && value_same(*x_1, *y_1),
        (Value::ScaleCtx, Value::ScaleCtx) => true,
        _ => false,
    }
}

/// Whether `y` is `x` after a walk through `m` that stopped at its first
/// error: what it passed translated, the part that failed walked likewise,
/// the rest untouched.
pub open spec fn value_walked<M: IdMap>(x: Value, m: &M, y: Value) -> bool
    decreases x,
{
    match (x, y) {
        (Value::Const(x_0), Value::Const(y_0)) => x_0 == y_0 && true,
        (Value::Read(x_0), Value::Read(y_0)) => (if (x_0.remap_check(m)) is Err { x_0.walked_to(m, y_0) } else { x_0.remaps_to(m, y_0) && true }),
        (Value::Bin(x_0, x_1, x_2), Value::Bin(y_0, y_1, y_2)) => x_0 == y_0 && (if (value_check(*x_1, m)) is Err { value_walked(*x_1, m, *y_1) && x_2 == y_2 } else { value_remaps(*x_1, m, *y_1) && (if (value_check(*x_2, m)) is Err { value_walked(*x_2, m, *y_2) } else { value_remaps(*x_2, m, *y_2) && true }) }),
        (Value::Clamp { v: x_v, lo: x_lo, hi: x_hi }, Value::Clamp { v: y_v, lo: y_lo, hi: y_hi }) => (if (value_check(*x_v, m)) is Err { value_walked(*x_v, m, *y_v) && x_lo == y_lo && x_hi == y_hi } else { value_remaps(*x_v, m, *y_v) && (if (value_check(*x_lo, m)) is Err { value_walked(*x_lo, m, *y_lo) && x_hi == y_hi } else { value_remaps(*x_lo, m, *y_lo) && (if (value_check(*x_hi, m)) is Err { value_walked(*x_hi, m, *y_hi) } else { value_remaps(*x_hi, m, *y_hi) && true }) }) }),
        (Value::Curve(x_0, x_1), Value::Curve(y_0, y_1)) => (if (leaf(m.curve_spec(x_0))) is Err { x_0 == y_0 && x_1 == y_1 } else { m.curve_spec(x_0) == Ok::<CurveId, M::Error>(y_0) && (if (value_check(*x_1, m)) is Err { value_walked(*x_1, m, *y_1) } else { value_remaps(*x_1, m, *y_1) && true }) }),
        (Value::ScaleCtx, Value::ScaleCtx) => true,
        _ => false,
    }
}

/// Translate every interned handle inside `x` through `m`, stopping at the
/// map's first error.
#[verifier::rlimit(60)]
#[verifier::spinoff_prover]
pub fn remap_value<M: IdMap>(x: &mut Value, m: &M) -> (r: Result<(), M::Error>)
    ensures
        r == value_check(*old(x), m),
        r is Ok ==> value_remaps(*old(x), m, *final(x)),
        r is Err ==> value_walked(*old(x), m, *final(x)),
    decreases *old(x),
{
    match x {
        Value::Const(_) => {
        },
        Value::Read(x_0) => {
            let r = x_0.remap_ids(m);
            if r.is_err() {
                return r;
            }
        },
        Value::Bin(_, x_1, x_2) => {
            let r = remap_value(x_1, m);
            if r.is_err() {
                return r;
            }
            let r = remap_value(x_2, m);
            if r.is_err() {
                return r;
            }
        },
        Value::Clamp { v: x_v, lo: x_lo, hi: x_hi } => {
            let r = remap_value(x_v, m);
            if r.is_err() {
                return r;
            }
            let r = remap_value(x_lo, m);
            if r.is_err() {
                return r;
            }
            let r = remap_value(x_hi, m);
            if r.is_err() {
                return r;
            }
        },
        Value::Curve(x_0, x_1) => {
            match m.curve(*x_0) {
                Ok(v) => { *x_0 = v; },
                Err(e) => { return Err(e); },
            }
            let r = remap_value(x_1, m);
            if r.is_err() {
                return r;
            }
        },
        Value::ScaleCtx => {
        },
    }
    Ok(())
}

proof fn lemma_value_total<M: IdMap>(x: Value, m: &M)
    requires
        total(m),
    ensures
        value_check(x, m) is Ok,
    decreases x,
{
    match x {
        Value::Const(x_0) => {  },
        Value::Read(x_0) => { x_0.lemma_total(m); },
        Value::Bin(x_0, x_1, x_2) => { lemma_value_total(*x_1, m); lemma_value_total(*x_2, m); },
        Value::Clamp { v: x_v, lo: x_lo, hi: x_hi } => { lemma_value_total(*x_v, m); lemma_value_total(*x_lo, m); lemma_value_total(*x_hi, m); },
        Value::Curve(x_0, x_1) => { lemma_value_total(*x_1, m); },
        Value::ScaleCtx => {  },
    }
}

proof fn lemma_value_identity<M: IdMap>(x: Value, m: &M, y: Value)
    requires
        keeps_ids(m),
        value_remaps(x, m, y),
    ensures
        value_same(x, y),
    decreases x,
{
    match (x, y) {
        (Value::Const(x_0), Value::Const(y_0)) => {  },
        (Value::Read(x_0), Value::Read(y_0)) => { x_0.lemma_identity(m, y_0); },
        (Value::Bin(x_0, x_1, x_2), Value::Bin(y_0, y_1, y_2)) => { lemma_value_identity(*x_1, m, *y_1); lemma_value_identity(*x_2, m, *y_2); },
        (Value::Clamp { v: x_v, lo: x_lo, hi: x_hi }, Value::Clamp { v: y_v, lo: y_lo, hi: y_hi }) => { lemma_value_identity(*x_v, m, *y_v); lemma_value_identity(*x_lo, m, *y_lo); lemma_value_identity(*x_hi, m, *y_hi); },
        (Value::Curve(x_0, x_1), Value::Curve(y_0, y_1)) => { lemma_value_identity(*x_1, m, *y_1); },
        (Value::ScaleCtx, Value::ScaleCtx) => {  },
        _ => {},
    }
}

proof fn lemma_value_stable<M: IdMap>(x: Value, m: &M, a: Value, b: Value)
    requires
        settles(m),
        value_remaps(x, m, a),
        value_remaps(a, m, b),
    ensures
        value_same(a, b),
    decreases x,
{
    match (x, a, b) {
        (Value::Const(x_0), Value::Const(a_0), Value::Const(b_0)) => {  },
        (Value::Read(x_0), Value::Read(a_0), Value::Read(b_0)) => { x_0.lemma_stable(m, a_0, b_0); },
        (Value::Bin(x_0, x_1, x_2), Value::Bin(a_0, a_1, a_2), Value::Bin(b_0, b_1, b_2)) => { lemma_value_stable(*x_1, m, *a_1, *b_1); lemma_value_stable(*x_2, m, *a_2, *b_2); },
        (Value::Clamp { v: x_v, lo: x_lo, hi: x_hi }, Value::Clamp { v: a_v, lo: a_lo, hi: a_hi }, Value::Clamp { v: b_v, lo: b_lo, hi: b_hi }) => { lemma_value_stable(*x_v, m, *a_v, *b_v); lemma_value_stable(*x_lo, m, *a_lo, *b_lo); lemma_value_stable(*x_hi, m, *a_hi, *b_hi); },
        (Value::Curve(x_0, x_1), Value::Curve(a_0, a_1), Value::Curve(b_0, b_1)) => { lemma_value_stable(*x_1, m, *a_1, *b_1); },
        (Value::ScaleCtx, Value::ScaleCtx, Value::ScaleCtx) => {  },
        _ => {},
    }
}

#[verifier::rlimit(60)]
#[verifier::spinoff_prover]
proof fn lemma_value_walk_keeps<M: IdMap>(x: Value, m: &M, y: Value)
    requires
        keeps_ids(m),
        value_walked(x, m, y),
    ensures
        value_same(x, y),
    decreases x,
{
    match (x, y) {
        (Value::Const(x_0), Value::Const(y_0)) => {  },
        (Value::Read(x_0), Value::Read(y_0)) => { if (x_0.remap_check(m)) is Err { x_0.lemma_walk_keeps(m, y_0); } else { x_0.lemma_identity(m, y_0);  } },
        (Value::Bin(x_0, x_1, x_2), Value::Bin(y_0, y_1, y_2)) => { if (value_check(*x_1, m)) is Err { lemma_value_walk_keeps(*x_1, m, *y_1); lemma_value_same_refl(*x_2, m); } else { lemma_value_identity(*x_1, m, *y_1); if (value_check(*x_2, m)) is Err { lemma_value_walk_keeps(*x_2, m, *y_2); } else { lemma_value_identity(*x_2, m, *y_2);  } } },
        (Value::Clamp { v: x_v, lo: x_lo, hi: x_hi }, Value::Clamp { v: y_v, lo: y_lo, hi: y_hi }) => { if (value_check(*x_v, m)) is Err { lemma_value_walk_keeps(*x_v, m, *y_v); lemma_value_same_refl(*x_lo, m); lemma_value_same_refl(*x_hi, m); } else { lemma_value_identity(*x_v, m, *y_v); if (value_check(*x_lo, m)) is Err { lemma_value_walk_keeps(*x_lo, m, *y_lo); lemma_value_same_refl(*x_hi, m); } else { lemma_value_identity(*x_lo, m, *y_lo); if (value_check(*x_hi, m)) is Err { lemma_value_walk_keeps(*x_hi, m, *y_hi); } else { lemma_value_identity(*x_hi, m, *y_hi);  } } } },
        (Value::Curve(x_0, x_1), Value::Curve(y_0, y_1)) => { if (leaf(m.curve_spec(x_0))) is Err { lemma_value_same_refl(*x_1, m); } else {  if (value_check(*x_1, m)) is Err { lemma_value_walk_keeps(*x_1, m, *y_1); } else { lemma_value_identity(*x_1, m, *y_1);  } } },
        (Value::ScaleCtx, Value::ScaleCtx) => {  },
        _ => {},
    }
}

proof fn lemma_value_same_refl<M: IdMap>(x: Value, m: &M)
    ensures
        value_same(x, x),
    decreases x,
{
    match x {
        Value::Const(x_0) => {  },
        Value::Read(x_0) => { x_0.lemma_same_refl(m); },
        Value::Bin(x_0, x_1, x_2) => { lemma_value_same_refl(*x_1, m); lemma_value_same_refl(*x_2, m); },
        Value::Clamp { v: x_v, lo: x_lo, hi: x_hi } => { lemma_value_same_refl(*x_v, m); lemma_value_same_refl(*x_lo, m); lemma_value_same_refl(*x_hi, m); },
        Value::Curve(x_0, x_1) => { lemma_value_same_refl(*x_1, m); },
        Value::ScaleCtx => {  },
    }
}

proof fn lemma_value_lands<M1: IdMap, M2: IdMap>(x: Value, m1: &M1, m2: &M2, a: Value)
    requires
        lands_in(m1, m2),
        value_remaps(x, m1, a),
    ensures
        value_check(a, m2) is Ok,
    decreases x,
{
    match (x, a) {
        (Value::Const(x_0), Value::Const(a_0)) => {  },
        (Value::Read(x_0), Value::Read(a_0)) => { x_0.lemma_lands(m1, m2, a_0); },
        (Value::Bin(x_0, x_1, x_2), Value::Bin(a_0, a_1, a_2)) => { lemma_value_lands(*x_1, m1, m2, *a_1); lemma_value_lands(*x_2, m1, m2, *a_2); },
        (Value::Clamp { v: x_v, lo: x_lo, hi: x_hi }, Value::Clamp { v: a_v, lo: a_lo, hi: a_hi }) => { lemma_value_lands(*x_v, m1, m2, *a_v); lemma_value_lands(*x_lo, m1, m2, *a_lo); lemma_value_lands(*x_hi, m1, m2, *a_hi); },
        (Value::Curve(x_0, x_1), Value::Curve(a_0, a_1)) => { lemma_value_lands(*x_1, m1, m2, *a_1); },
        (Value::ScaleCtx, Value::ScaleCtx) => {  },
        _ => {},
    }
}

proof fn lemma_value_fixed<M1: IdMap, M2: IdMap>(x: Value, m1: &M1, m2: &M2, a: Value, b: Value)
    requires
        fixes_outputs(m1, m2),
        value_remaps(x, m1, a),
        value_remaps(a, m2, b),
    ensures
        value_same(a, b),
    decreases x,
{
    match (x, a, b) {
        (Value::Const(x_0), Value::Const(a_0), Value::Const(b_0)) => {  },
        (Value::Read(x_0), Value::Read(a_0), Value::Read(b_0)) => { x_0.lemma_fixed(m1, m2, a_0, b_0); },
        (Value::Bin(x_0, x_1, x_2), Value::Bin(a_0, a_1, a_2), Value::Bin(b_0, b_1, b_2)) => { lemma_value_fixed(*x_1, m1, m2, *a_1, *b_1); lemma_value_fixed(*x_2, m1, m2, *a_2, *b_2); },
        (Value::Clamp { v: x_v, lo: x_lo, hi: x_hi }, Value::Clamp { v: a_v, lo: a_lo, hi: a_hi }, Value::Clamp { v: b_v, lo: b_lo, hi: b_hi }) => { lemma_value_fixed(*x_v, m1, m2, *a_v, *b_v); lemma_value_fixed(*x_lo, m1, m2, *a_lo, *b_lo); lemma_value_fixed(*x_hi, m1, m2, *a_hi, *b_hi); },
        (Value::Curve(x_0, x_1), Value::Curve(a_0, a_1), Value::Curve(b_0, b_1)) => { lemma_value_fixed(*x_1, m1, m2, *a_1, *b_1); },
        (Value::ScaleCtx, Value::ScaleCtx, Value::ScaleCtx) => {  },
        _ => {},
    }
}

proof fn lemma_value_compose<M1: IdMap, M2: IdMap, M12: IdMap>(x: Value, m1: &M1, m2: &M2, m12: &M12, a: Value, b: Value)
    requires
        composes(m1, m2, m12),
        value_remaps(x, m1, a),
        value_remaps(a, m2, b),
    ensures
        value_remaps(x, m12, b),
    decreases x,
{
    match (x, a, b) {
        (Value::Const(x_0), Value::Const(a_0), Value::Const(b_0)) => {  },
        (Value::Read(x_0), Value::Read(a_0), Value::Read(b_0)) => { x_0.lemma_compose(m1, m2, m12, a_0, b_0); },
        (Value::Bin(x_0, x_1, x_2), Value::Bin(a_0, a_1, a_2), Value::Bin(b_0, b_1, b_2)) => { lemma_value_compose(*x_1, m1, m2, m12, *a_1, *b_1); lemma_value_compose(*x_2, m1, m2, m12, *a_2, *b_2); },
        (Value::Clamp { v: x_v, lo: x_lo, hi: x_hi }, Value::Clamp { v: a_v, lo: a_lo, hi: a_hi }, Value::Clamp { v: b_v, lo: b_lo, hi: b_hi }) => { lemma_value_compose(*x_v, m1, m2, m12, *a_v, *b_v); lemma_value_compose(*x_lo, m1, m2, m12, *a_lo, *b_lo); lemma_value_compose(*x_hi, m1, m2, m12, *a_hi, *b_hi); },
        (Value::Curve(x_0, x_1), Value::Curve(a_0, a_1), Value::Curve(b_0, b_1)) => { lemma_value_compose(*x_1, m1, m2, m12, *a_1, *b_1); },
        (Value::ScaleCtx, Value::ScaleCtx, Value::ScaleCtx) => {  },
        _ => {},
    }
}

impl Contents for Value {
    open spec fn same_as(&self, other: Self) -> bool {
        value_same(*self, other)
    }
}

impl<M: IdMap> RemapIds<M> for Value {
    open spec fn remap_check(&self, m: &M) -> Result<(), M::Error> {
        value_check(*self, m)
    }

    open spec fn remaps_to(&self, m: &M, new: Self) -> bool {
        value_remaps(*self, m, new)
    }

    open spec fn walked_to(&self, m: &M, new: Self) -> bool {
        value_walked(*self, m, new)
    }

    fn remap_ids(&mut self, m: &M) -> (r: Result<(), M::Error>) {
        remap_value(self, m)
    }

    proof fn lemma_total(&self, m: &M) {
        lemma_value_total(*self, m);
    }

    proof fn lemma_identity(&self, m: &M, new: Self) {
        lemma_value_identity(*self, m, new);
    }

    proof fn lemma_stable(&self, m: &M, a: Self, b: Self) {
        lemma_value_stable(*self, m, a, b);
    }

    proof fn lemma_walk_keeps(&self, m: &M, new: Self) {
        lemma_value_walk_keeps(*self, m, new);
    }

    proof fn lemma_same_refl(&self, m: &M) {
        lemma_value_same_refl(*self, m);
    }
}

impl<M1: IdMap, M2: IdMap> RemapPair<M1, M2> for Value {
    proof fn lemma_lands(&self, m1: &M1, m2: &M2, a: Self) {
        lemma_value_lands(*self, m1, m2, a);
    }

    proof fn lemma_fixed(&self, m1: &M1, m2: &M2, a: Self, b: Self) {
        lemma_value_fixed(*self, m1, m2, a, b);
    }
}

impl<M1: IdMap, M2: IdMap, M12: IdMap> RemapCompose<M1, M2, M12> for Value {
    proof fn lemma_compose(&self, m1: &M1, m2: &M2, m12: &M12, a: Self, b: Self) {
        lemma_value_compose(*self, m1, m2, m12, a, b);
    }
}

/// The first error the walk over a `Condition` meets, in walk order.
pub open spec fn condition_check<M: IdMap>(x: Condition, m: &M) -> Result<(), M::Error>
    decreases x,
{
    match x {
        Condition::Always => Ok(()),
        Condition::Cmp(x_0, x_1, x_2) => then(x_1.remap_check(m), x_2.remap_check(m)),
        Condition::HasTag(x_0, x_1) => then(leaf(m.tag_spec(x_0)), Ok(())),
        Condition::HasBuff(x_0, x_1) => then(leaf(m.buff_spec(x_0)), Ok(())),
        Condition::HasTalent(x_0) => then(leaf(m.talent_spec(x_0)), Ok(())),
        Condition::And(x_0) => then(conditions_check(x_0@, m), Ok(())),
        Condition::Or(x_0) => then(conditions_check(x_0@, m), Ok(())),
        Condition::Not(x_0) => then(condition_check(*x_0, m), Ok(())),
        Condition::HasBuffFrom(x_0, x_1, x_2) => then(leaf(m.buff_spec(x_0)), Ok(())),
    }
}

/// Whether `y` is `x` with every interned handle translated through `m`.
pub open spec fn condition_remaps<M: IdMap>(x: Condition, m: &M, y: Condition) -> bool
    decreases x,
{
    match (x, y) {
        (Condition::Always, Condition::Always) => true,
        (Condition::Cmp(x_0, x_1, x_2), Condition::Cmp(y_0, y_1, y_2)) => x_0 == y_0 && x_1.remaps_to(m, y_1) && x_2.remaps_to(m, y_2),
        (Condition::HasTag(x_0, x_1), Condition::HasTag(y_0, y_1)) => m.tag_spec(x_0) == Ok::<TagId, M::Error>(y_0) && x_1 == y_1,
        (Condition::HasBuff(x_0, x_1), Condition::HasBuff(y_0, y_1)) => m.buff_spec(x_0) == Ok::<BuffId, M::Error>(y_0) && x_1 == y_1,
        (Condition::HasTalent(x_0), Condition::HasTalent(y_0)) => m.talent_spec(x_0) == Ok::<TalentId, M::Error>(y_0),
        (Condition::And(x_0), Condition::And(y_0)) => conditions_remaps(x_0@, m, y_0@),
        (Condition::Or(x_0), Condition::Or(y_0)) => conditions_remaps(x_0@, m, y_0@),
        (Condition::Not(x_0), Condition::Not(y_0)) => condition_remaps(*x_0, m, *y_0),
        (Condition::HasBuffFrom(x_0, x_1, x_2), Condition::HasBuffFrom(y_0, y_1, y_2)) => m.buff_spec(x_0) == Ok::<BuffId, M::Error>(y_0) && x_1 == y_1 && x_2 == y_2,
        _ => false,
    }
}

/// Whether `x` and `y` hold the same contents.
pub open spec fn condition_same(x: Condition, y: Condition) -> bool
    decreases x,
{
    match (x, y) {
        (Condition::Always, Condition::Always) => true,
        (Condition::Cmp(x_0, x_1, x_2), Condition::Cmp(y_0, y_1, y_2)) => x_0 == y_0 && x_1.same_as(y_1) && x_2.same_as(y_2),
        (Condition::HasTag(x_0, x_1), Condition::HasTag(y_0, y_1)) => x_0 == y_0 && x_1 == y_1,
        (Condition::HasBuff(x_0, x_1), Condition::HasBuff(y_0, y_1)) => x_0 == y_0 && x_1 == y_1,
        (Condition::HasTalent(x_0), Condition::HasTalent(y_0)) => x_0 == y_0,
        (Condition::And(x_0), Condition::And(y_0)) => conditions_same(x_0@, y_0@),
        (Condition::Or(x_0), Condition::Or(y_0)) => conditions_same(x_0@, y_0@),
        (Condition::Not(x_0), Condition::Not(y_0)) => condition_same(*x_0, *y_0),
        (Condition::HasBuffFrom(x_0, x_1, x_2), Condition::HasBuffFrom(y_0, y_1, y_2)) => x_0 == y_0 && x_1 == y_1 && x_2 == y_2,
        _ => false,
    }
}

/// Whether `y` is `x` after a walk through `m` that stopped at its first
/// error: what it passed translated, the part that failed walked likewise,
/// the rest untouched.
pub open spec fn condition_walked<M: IdMap>(x: Condition, m: &M, y: Condition) -> bool
    decreases x,
{
    match (x, y) {
        (Condition::Always, Condition::Always) => true,
        (Condition::Cmp(x_0, x_1, x_2), Condition::Cmp(y_0, y_1, y_2)) => x_0 == y_0 && (if (x_1.remap_check(m)) is Err { x_1.walked_to(m, y_1) && x_2 == y_2 } else { x_1.remaps_to(m, y_1) && (if (x_2.remap_check(m)) is Err { x_2.walked_to(m, y_2) } else { x_2.remaps_to(m, y_2) && true }) }),
        (Condition::HasTag(x_0, x_1), Condition::HasTag(y_0, y_1)) => x_1 == y_1 && (if (leaf(m.tag_spec(x_0))) is Err { x_0 == y_0 } else { m.tag_spec(x_0) == Ok::<TagId, M::Error>(y_0) && true }),
        (Condition::HasBuff(x_0, x_1), Condition::HasBuff(y_0, y_1)) => x_1 == y_1 && (if (leaf(m.buff_spec(x_0))) is Err { x_0 == y_0 } else { m.buff_spec(x_0) == Ok::<BuffId, M::Error>(y_0) && true }),
        (Condition::HasTalent(x_0), Condition::HasTalent(y_0)) => (if (leaf(m.talent_spec(x_0))) is Err { x_0 == y_0 } else { m.talent_spec(x_0) == Ok::<TalentId, M::Error>(y_0) && true }),
        (Condition::And(x_0), Condition::And(y_0)) => (if (conditions_check(x_0@, m)) is Err { conditions_walked(x_0@, m, y_0@) } else { conditions_remaps(x_0@, m, y_0@) && true }),
        (Condition::Or(x_0), Condition::Or(y_0)) => (if (conditions_check(x_0@, m)) is Err { conditions_walked(x_0@, m, y_0@) } else { conditions_remaps(x_0@, m, y_0@) && true }),
        (Condition::Not(x_0), Condition::Not(y_0)) => (if (condition_check(*x_0, m)) is Err { condition_walked(*x_0, m, *y_0) } else { condition_remaps(*x_0, m, *y_0) && true }),
        (Condition::HasBuffFrom(x_0, x_1, x_2), Condition::HasBuffFrom(y_0, y_1, y_2)) => x_1 == y_1 && x_2 == y_2 && (if (leaf(m.buff_spec(x_0))) is Err { x_0 == y_0 } else { m.buff_spec(x_0) == Ok::<BuffId, M::Error>(y_0) && true }),
        _ => false,
    }
}

/// Translate every interned handle inside `x` through `m`, stopping at the
/// map's first error.
#[verifier::rlimit(60)]
#[verifier::spinoff_prover]
pub fn remap_condition<M: IdMap>(x: &mut Condition, m: &M) -> (r: Result<(), M::Error>)
    ensures
        r == condition_check(*old(x), m),
        r is Ok ==> condition_remaps(*old(x), m, *final(x)),
        r is Err ==> condition_walked(*old(x), m, *final(x)),
    decreases *old(x),
{
    match x {
        Condition::Always => {
        },
        Condition::Cmp(_, x_1, x_2) => {
            let r = x_1.remap_ids(m);
            if r.is_err() {
                return r;
            }
            let r = x_2.remap_ids(m);
            if r.is_err() {
                return r;
            }
        },
        Condition::HasTag(x_0, _) => {
            match m.tag(*x_0) {
                Ok(v) => { *x_0 = v; },
                Err(e) => { return Err(e); },
            }
        },
        Condition::HasBuff(x_0, _) => {
            match m.buff(*x_0) {
                Ok(v) => { *x_0 = v; },
                Err(e) => { return Err(e); },
            }
        },
        Condition::HasTalent(x_0) => {
            match m.talent(*x_0) {
                Ok(v) => { *x_0 = v; },
                Err(e) => { return Err(e); },
            }
        },
        Condition::And(x_0) => {
            let r = remap_conditions(x_0, m);
            if r.is_err() {
                return r;
            }
        },
        Condition::Or(x_0) => {
            let r = remap_conditions(x_0, m);
            if r.is_err() {
                return r;
            }
        },
        Condition::Not(x_0) => {
            let r = remap_condition(x_0, m);
            if r.is_err() {
                return r;
            }
        },
        Condition::HasBuffFrom(x_0, _, _) => {
            match m.buff(*x_0) {
                Ok(v) => { *x_0 = v; },
                Err(e) => { return Err(e); },
            }
        },
    }
    Ok(())
}

proof fn lemma_condition_total<M: IdMap>(x: Condition, m: &M)
    requires
        total(m),
    ensures
        condition_check(x, m) is Ok,
    decreases x,
{
    match x {
        Condition::Always => {  },
        Condition::Cmp(x_0, x_1, x_2) => { x_1.lemma_total(m); x_2.lemma_total(m); },
        Condition::HasTag(x_0, x_1) => {  },
        Condition::HasBuff(x_0, x_1) => {  },
        Condition::HasTalent(x_0) => {  },
        Condition::And(x_0) => { lemma_conditions_total(x_0@, m); },
        Condition::Or(x_0) => { lemma_conditions_total(x_0@, m); },
        Condition::Not(x_0) => { lemma_condition_total(*x_0, m); },
        Condition::HasBuffFrom(x_0, x_1, x_2) => {  },
    }
}

proof fn lemma_condition_identity<M: IdMap>(x: Condition, m: &M, y: Condition)
    requires
        keeps_ids(m),
        condition_remaps(x, m, y),
    ensures
        condition_same(x, y),
    decreases x,
{
    match (x, y) {
        (Condition::Always, Condition::Always) => {  },
        (Condition::Cmp(x_0, x_1, x_2), Condition::Cmp(y_0, y_1, y_2)) => { x_1.lemma_identity(m, y_1); x_2.lemma_identity(m, y_2); },
        (Condition::HasTag(x_0, x_1), Condition::HasTag(y_0, y_1)) => {  },
        (Condition::HasBuff(x_0, x_1), Condition::HasBuff(y_0, y_1)) => {  },
        (Condition::HasTalent(x_0), Condition::HasTalent(y_0)) => {  },
        (Condition::And(x_0), Condition::And(y_0)) => { lemma_conditions_identity(x_0@, m, y_0@); },
        (Condition::Or(x_0), Condition::Or(y_0)) => { lemma_conditions_identity(x_0@, m, y_0@); },
        (Condition::Not(x_0), Condition::Not(y_0)) => { lemma_condition_identity(*x_0, m, *y_0); },
        (Condition::HasBuffFrom(x_0, x_1, x_2), Condition::HasBuffFrom(y_0, y_1, y_2)) => {  },
        _ => {},
    }
}

proof fn lemma_condition_stable<M: IdMap>(x: Condition, m: &M, a: Condition, b: Condition)
    requires
        settles(m),
        condition_remaps(x, m, a),
        condition_remaps(a, m, b),
    ensures
        condition_same(a, b),
    decreases x,
{
    match (x, a, b) {
        (Condition::Always, Condition::Always, Condition::Always) => {  },
        (Condition::Cmp(x_0, x_1, x_2), Condition::Cmp(a_0, a_1, a_2), Condition::Cmp(b_0, b_1, b_2)) => { x_1.lemma_stable(m, a_1, b_1); x_2.lemma_stable(m, a_2, b_2); },
        (Condition::HasTag(x_0, x_1), Condition::HasTag(a_0, a_1), Condition::HasTag(b_0, b_1)) => {  },
        (Condition::HasBuff(x_0, x_1), Condition::HasBuff(a_0, a_1), Condition::HasBuff(b_0, b_1)) => {  },
        (Condition::HasTalent(x_0), Condition::HasTalent(a_0), Condition::HasTalent(b_0)) => {  },
        (Condition::And(x_0), Condition::And(a_0), Condition::And(b_0)) => { lemma_conditions_stable(x_0@, m, a_0@, b_0@); },
        (Condition::Or(x_0), Condition::Or(a_0), Condition::Or(b_0)) => { lemma_conditions_stable(x_0@, m, a_0@, b_0@); },
        (Condition::Not(x_0), Condition::Not(a_0), Condition::Not(b_0)) => { lemma_condition_stable(*x_0, m, *a_0, *b_0); },
        (Condition::HasBuffFrom(x_0, x_1, x_2), Condition::HasBuffFrom(a_0, a_1, a_2), Condition::HasBuffFrom(b_0, b_1, b_2)) => {  },
        _ => {},
    }
}

#[verifier::rlimit(60)]
#[verifier::spinoff_prover]
proof fn lemma_condition_walk_keeps<M: IdMap>(x: Condition, m: &M, y: Condition)
    requires
        keeps_ids(m),
        condition_walked(x, m, y),
    ensures
        condition_same(x, y),
    decreases x,
{
    match (x, y) {
        (Condition::Always, Condition::Always) => {  },
        (Condition::Cmp(x_0, x_1, x_2), Condition::Cmp(y_0, y_1, y_2)) => { if (x_1.remap_check(m)) is Err { x_1.lemma_walk_keeps(m, y_1); x_2.lemma_same_refl(m); } else { x_1.lemma_identity(m, y_1); if (x_2.remap_check(m)) is Err { x_2.lemma_walk_keeps(m, y_2); } else { x_2.lemma_identity(m, y_2);  } } },
        (Condition::HasTag(x_0, x_1), Condition::HasTag(y_0, y_1)) => { if (leaf(m.tag_spec(x_0))) is Err {  } else {   } },
        (Condition::HasBuff(x_0, x_1), Condition::HasBuff(y_0, y_1)) => { if (leaf(m.buff_spec(x_0))) is Err {  } else {   } },
        (Condition::HasTalent(x_0), Condition::HasTalent(y_0)) => { if (leaf(m.talent_spec(x_0))) is Err {  } else {   } },
        (Condition::And(x_0), Condition::And(y_0)) => { if (conditions_check(x_0@, m)) is Err { lemma_conditions_walk_keeps(x_0@, m, y_0@); } else { lemma_conditions_identity(x_0@, m, y_0@);  } },
        (Condition::Or(x_0), Condition::Or(y_0)) => { if (conditions_check(x_0@, m)) is Err { lemma_conditions_walk_keeps(x_0@, m, y_0@); } else { lemma_conditions_identity(x_0@, m, y_0@);  } },
        (Condition::Not(x_0), Condition::Not(y_0)) => { if (condition_check(*x_0, m)) is Err { lemma_condition_walk_keeps(*x_0, m, *y_0); } else { lemma_condition_identity(*x_0, m, *y_0);  } },
        (Condition::HasBuffFrom(x_0, x_1, x_2), Condition::HasBuffFrom(y_0, y_1, y_2)) => { if (leaf(m.buff_spec(x_0))) is Err {  } else {   } },
        _ => {},
    }
}

proof fn lemma_condition_same_refl<M: IdMap>(x: Condition, m: &M)
    ensures
        condition_same(x, x),
    decreases x,
{
    match x {
        Condition::Always => {  },
        Condition::Cmp(x_0, x_1, x_2) => { x_1.lemma_same_refl(m); x_2.lemma_same_refl(m); },
        Condition::HasTag(x_0, x_1) => {  },
        Condition::HasBuff(x_0, x_1) => {  },
        Condition::HasTalent(x_0) => {  },
        Condition::And(x_0) => { lemma_conditions_same_refl(x_0@, m); },
        Condition::Or(x_0) => { lemma_conditions_same_refl(x_0@, m); },
        Condition::Not(x_0) => { lemma_condition_same_refl(*x_0, m); },
        Condition::HasBuffFrom(x_0, x_1, x_2) => {  },
    }
}

proof fn lemma_condition_lands<M1: IdMap, M2: IdMap>(x: Condition, m1: &M1, m2: &M2, a: Condition)
    requires
        lands_in(m1, m2),
        condition_remaps(x, m1, a),
    ensures
        condition_check(a, m2) is Ok,
    decreases x,
{
    match (x, a) {
        (Condition::Always, Condition::Always) => {  },
        (Condition::Cmp(x_0, x_1, x_2), Condition::Cmp(a_0, a_1, a_2)) => { x_1.lemma_lands(m1, m2, a_1); x_2.lemma_lands(m1, m2, a_2); },
        (Condition::HasTag(x_0, x_1), Condition::HasTag(a_0, a_1)) => {  },
        (Condition::HasBuff(x_0, x_1), Condition::HasBuff(a_0, a_1)) => {  },
        (Condition::HasTalent(x_0), Condition::HasTalent(a_0)) => {  },
        (Condition::And(x_0), Condition::And(a_0)) => { lemma_conditions_lands(x_0@, m1, m2, a_0@); },
        (Condition::Or(x_0), Condition::Or(a_0)) => { lemma_conditions_lands(x_0@, m1, m2, a_0@); },
        (Condition::Not(x_0), Condition::Not(a_0)) => { lemma_condition_lands(*x_0, m1, m2, *a_0); },
        (Condition::HasBuffFrom(x_0, x_1, x_2), Condition::HasBuffFrom(a_0, a_1, a_2)) => {  },
        _ => {},
    }
}

proof fn lemma_condition_fixed<M1: IdMap, M2: IdMap>(x: Condition, m1: &M1, m2: &M2, a: Condition, b: Condition)
    requires
        fixes_outputs(m1, m2),
        condition_remaps(x, m1, a),
        condition_remaps(a, m2, b),
    ensures
        condition_same(a, b),
    decreases x,
{
    match (x, a, b) {
        (Condition::Always, Condition::Always, Condition::Always) => {  },
        (Condition::Cmp(x_0, x_1, x_2), Condition::Cmp(a_0, a_1, a_2), Condition::Cmp(b_0, b_1, b_2)) => { x_1.lemma_fixed(m1, m2, a_1, b_1); x_2.lemma_fixed(m1, m2, a_2, b_2); },
        (Condition::HasTag(x_0, x_1), Condition::HasTag(a_0, a_1), Condition::HasTag(b_0, b_1)) => {  },
        (Condition::HasBuff(x_0, x_1), Condition::HasBuff(a_0, a_1), Condition::HasBuff(b_0, b_1)) => {  },
        (Condition::HasTalent(x_0), Condition::HasTalent(a_0), Condition::HasTalent(b_0)) => {  },
        (Condition::And(x_0), Condition::And(a_0), Condition::And(b_0)) => { lemma_conditions_fixed(x_0@, m1, m2, a_0@, b_0@); },
        (Condition::Or(x_0), Condition::Or(a_0), Condition::Or(b_0)) => { lemma_conditions_fixed(x_0@, m1, m2, a_0@, b_0@); },
        (Condition::Not(x_0), Condition::Not(a_0), Condition::Not(b_0)) => { lemma_condition_fixed(*x_0, m1, m2, *a_0, *b_0); },
        (Condition::HasBuffFrom(x_0, x_1, x_2), Condition::HasBuffFrom(a_0, a_1, a_2), Condition::HasBuffFrom(b_0, b_1, b_2)) => {  },
        _ => {},
    }
}

proof fn lemma_condition_compose<M1: IdMap, M2: IdMap, M12: IdMap>(x: Condition, m1: &M1, m2: &M2, m12: &M12, a: Condition, b: Condition)
    requires
        composes(m1, m2, m12),
        condition_remaps(x, m1, a),
        condition_remaps(a, m2, b),
    ensures
        condition_remaps(x, m12, b),
    decreases x,
{
    match (x, a, b) {
        (Condition::Always, Condition::Always, Condition::Always) => {  },
        (Condition::Cmp(x_0, x_1, x_2), Condition::Cmp(a_0, a_1, a_2), Condition::Cmp(b_0, b_1, b_2)) => { x_1.lemma_compose(m1, m2, m12, a_1, b_1); x_2.lemma_compose(m1, m2, m12, a_2, b_2); },
        (Condition::HasTag(x_0, x_1), Condition::HasTag(a_0, a_1), Condition::HasTag(b_0, b_1)) => {  },
        (Condition::HasBuff(x_0, x_1), Condition::HasBuff(a_0, a_1), Condition::HasBuff(b_0, b_1)) => {  },
        (Condition::HasTalent(x_0), Condition::HasTalent(a_0), Condition::HasTalent(b_0)) => {  },
        (Condition::And(x_0), Condition::And(a_0), Condition::And(b_0)) => { lemma_conditions_compose(x_0@, m1, m2, m12, a_0@, b_0@); },
        (Condition::Or(x_0), Condition::Or(a_0), Condition::Or(b_0)) => { lemma_conditions_compose(x_0@, m1, m2, m12, a_0@, b_0@); },
        (Condition::Not(x_0), Condition::Not(a_0), Condition::Not(b_0)) => { lemma_condition_compose(*x_0, m1, m2, m12, *a_0, *b_0); },
        (Condition::HasBuffFrom(x_0, x_1, x_2), Condition::HasBuffFrom(a_0, a_1, a_2), Condition::HasBuffFrom(b_0, b_1, b_2)) => {  },
        _ => {},
    }
}

impl Contents for Condition {
    open spec fn same_as(&self, other: Self) -> bool {
        condition_same(*self, other)
    }
}

impl<M: IdMap> RemapIds<M> for Condition {
    open spec fn remap_check(&self, m: &M) -> Result<(), M::Error> {
        condition_check(*self, m)
    }

    open spec fn remaps_to(&self, m: &M, new: Self) -> bool {
        condition_remaps(*self, m, new)
    }

    open spec fn walked_to(&self, m: &M, new: Self) -> bool {
        condition_walked(*self, m, new)
    }

    fn remap_ids(&mut self, m: &M) -> (r: Result<(), M::Error>) {
        remap_condition(self, m)
    }

    proof fn lemma_total(&self, m: &M) {
        lemma_condition_total(*self, m);
    }

    proof fn lemma_identity(&self, m: &M, new: Self) {
        lemma_condition_identity(*self, m, new);
    }

    proof fn lemma_stable(&self, m: &M, a: Self, b: Self) {
        lemma_condition_stable(*self, m, a, b);
    }

    proof fn lemma_walk_keeps(&self, m: &M, new: Self) {
        lemma_condition_walk_keeps(*self, m, new);
    }

    proof fn lemma_same_refl(&self, m: &M) {
        lemma_condition_same_refl(*self, m);
    }
}

impl<M1: IdMap, M2: IdMap> RemapPair<M1, M2> for Condition {
    proof fn lemma_lands(&self, m1: &M1, m2: &M2, a: Self) {
        lemma_condition_lands(*self, m1, m2, a);
    }

    proof fn lemma_fixed(&self, m1: &M1, m2: &M2, a: Self, b: Self) {
        lemma_condition_fixed(*self, m1, m2, a, b);
    }
}

impl<M1: IdMap, M2: IdMap, M12: IdMap> RemapCompose<M1, M2, M12> for Condition {
    proof fn lemma_compose(&self, m1: &M1, m2: &M2, m12: &M12, a: Self, b: Self) {
        lemma_condition_compose(*self, m1, m2, m12, a, b);
    }
}

/// The first error the walk over a `Impact` meets, in walk order.
pub open spec fn impact_check<M: IdMap>(x: Impact, m: &M) -> Result<(), M::Error>
    decreases x,
{
    match x {
        Impact::Retarget { shape: x_shape, filter: x_filter, max_targets: x_max_targets, exclude_primary: x_exclude_primary, inner: x_inner } => then(x_shape.remap_check(m), then(x_filter.remap_check(m), then(x_max_targets.remap_check(m), impacts_check(x_inner@, m)))),
        Impact::If { cond: x_cond, then: x_then, els: x_els } => then(x_cond.remap_check(m), then(impacts_check(x_then@, m), impacts_check(x_els@, m))),
        Impact::Loop { kind: x_kind, inner: x_inner } => then(x_kind.remap_check(m), impacts_check(x_inner@, m)),
        Impact::Delay { secs: x_secs, inner: x_inner } => then(x_secs.remap_check(m), impacts_check(x_inner@, m)),
        Impact::Damage { amount: x_amount, dtype: x_dtype, target: x_target, flags: x_flags } => then(x_amount.remap_check(m), leaf(m.damage_type_spec(x_dtype))),
        Impact::Heal { amount: x_amount, target: x_target, flags: x_flags } => then(x_amount.remap_check(m), Ok(())),
        Impact::AdjustPool { pool: x_pool, op: x_op, amount: x_amount, target: x_target } => then(x_pool.remap_check(m), x_amount.remap_check(m)),
        Impact::ApplyModifiers { buff: x_buff, stacks: x_stacks, duration_override: x_duration_override, target: x_target } => then(leaf(m.buff_spec(x_buff)), then(x_stacks.remap_check(m), x_duration_override.remap_check(m))),
        Impact::RemoveModifiers { sel: x_sel, target: x_target } => then(x_sel.remap_check(m), Ok(())),
        Impact::Dash { dir: x_dir, dist: x_dist, speed: x_speed, on_collision: x_on_collision, target: x_target } => then(x_dist.remap_check(m), then(x_speed.remap_check(m), impacts_check(x_on_collision@, m))),
        Impact::Knockback { dir: x_dir, force: x_force, target: x_target } => then(x_force.remap_check(m), Ok(())),
        Impact::Teleport { dest: x_dest, target: x_target, record: x_record } => then(x_dest.remap_check(m), Ok(())),
        Impact::Spawn { body: x_body, at: x_at, count: x_count, pattern: x_pattern } => then(body_check(x_body, m), then(x_count.remap_check(m), x_pattern.remap_check(m))),
        Impact::CastAbility { slot: x_slot, target: x_target, value_scale: x_value_scale, cost: x_cost } => then(leaf(m.slot_ref_spec(x_slot)), x_value_scale.remap_check(m)),
        Impact::Interrupt { target: x_target } => Ok(()),
        Impact::ResolvePending { filter: x_filter } => then(x_filter.remap_check(m), Ok(())),
        Impact::Emit { event: x_event, target: x_target, payload: x_payload } => then(leaf(m.event_spec(x_event)), x_payload.remap_check(m)),
        Impact::Custom { handler: x_handler, params: x_params, target: x_target } => then(leaf(m.handler_spec(x_handler)), Ok(())),
    }
}

/// Whether `y` is `x` with every interned handle translated through `m`.
pub open spec fn impact_remaps<M: IdMap>(x: Impact, m: &M, y: Impact) -> bool
    decreases x,
{
    match (x, y) {
        (Impact::Retarget { shape: x_shape, filter: x_filter, max_targets: x_max_targets, exclude_primary: x_exclude_primary, inner: x_inner }, Impact::Retarget { shape: y_shape, filter: y_filter, max_targets: y_max_targets, exclude_primary: y_exclude_primary, inner: y_inner }) => x_shape.remaps_to(m, y_shape) && x_filter.remaps_to(m, y_filter) && x_max_targets.remaps_to(m, y_max_targets) && x_exclude_primary == y_exclude_primary && impacts_remaps(x_inner@, m, y_inner@),
        (Impact::If { cond: x_cond, then: x_then, els: x_els }, Impact::If { cond: y_cond, then: y_then, els: y_els }) => x_cond.remaps_to(m, y_cond) && impacts_remaps(x_then@, m, y_then@) && impacts_remaps(x_els@, m, y_els@),
        (Impact::Loop { kind: x_kind, inner: x_inner }, Impact::Loop { kind: y_kind, inner: y_inner }) => x_kind.remaps_to(m, y_kind) && impacts_remaps(x_inner@, m, y_inner@),
        (Impact::Delay { secs: x_secs, inner: x_inner }, Impact::Delay { secs: y_secs, inner: y_inner }) => x_secs.remaps_to(m, y_secs) && impacts_remaps(x_inner@, m, y_inner@),
        (Impact::Damage { amount: x_amount, dtype: x_dtype, target: x_target, flags: x_flags }, Impact::Damage { amount: y_amount, dtype: y_dtype, target: y_target, flags: y_flags }) => x_amount.remaps_to(m, y_amount) && m.damage_type_spec(x_dtype) == Ok::<DamageTypeId, M::Error>(y_dtype) && x_target == y_target && x_flags == y_flags,
        (Impact::Heal { amount: x_amount, target: x_target, flags: x_flags }, Impact::Heal { amount: y_amount, target: y_target, flags: y_flags }) => x_amount.remaps_to(m, y_amount) && x_target == y_target && x_flags == y_flags,
        (Impact::AdjustPool { pool: x_pool, op: x_op, amount: x_amount, target: x_target }, Impact::AdjustPool { pool: y_pool, op: y_op, amount: y_amount, target: y_target }) => x_pool.remaps_to(m, y_pool) && x_op == y_op && x_amount.remaps_to(m, y_amount) && x_target == y_target,
        (Impact::ApplyModifiers { buff: x_buff, stacks: x_stacks, duration_override: x_duration_override, target: x_target }, Impact::ApplyModifiers { buff: y_buff, stacks: y_stacks, duration_override: y_duration_override, target: y_target }) => m.buff_spec(x_buff) == Ok::<BuffId, M::Error>(y_buff) && x_stacks.remaps_to(m, y_stacks) && x_duration_override.remaps_to(m, y_duration_override) && x_target == y_target,
        (Impact::RemoveModifiers { sel: x_sel, target: x_target }, Impact::RemoveModifiers { sel: y_sel, target: y_target }) => x_sel.remaps_to(m, y_sel) && x_target == y_target,
        (Impact::Dash { dir: x_dir, dist: x_dist, speed: x_speed, on_collision: x_on_collision, target: x_target }, Impact::Dash { dir: y_dir, dist: y_dist, speed: y_speed, on_collision: y_on_collision, target: y_target }) => x_dir == y_dir && x_dist.remaps_to(m, y_dist) && x_speed.remaps_to(m, y_speed) && impacts_remaps(x_on_collision@, m, y_on_collision@) && x_target == y_target,
        (Impact::Knockback { dir: x_dir, force: x_force, target: x_target }, Impact::Knockback { dir: y_dir, force: y_force, target: y_target }) => x_dir == y_dir && x_force.remaps_to(m, y_force) && x_target == y_target,
        (Impact::Teleport { dest: x_dest, target: x_target, record: x_record }, Impact::Teleport { dest: y_dest, target: y_target, record: y_record }) => x_dest.remaps_to(m, y_dest) && x_target == y_target && x_record == y_record,
        (Impact::Spawn { body: x_body, at: x_at, count: x_count, pattern: x_pattern }, Impact::Spawn { body: y_body, at: y_at, count: y_count, pattern: y_pattern }) => body_remaps(x_body, m, y_body) && x_at == y_at && x_count.remaps_to(m, y_count) && x_pattern.remaps_to(m, y_pattern),
        (Impact::CastAbility { slot: x_slot, target: x_target, value_scale: x_value_scale, cost: x_cost }, Impact::CastAbility { slot: y_slot, target: y_target, value_scale: y_value_scale, cost: y_cost }) => m.slot_ref_spec(x_slot) == Ok::<SlotRef, M::Error>(y_slot) && x_target == y_target && x_value_scale.remaps_to(m, y_value_scale) && x_cost == y_cost,
        (Impact::Interrupt { target: x_target }, Impact::Interrupt { target: y_target }) => x_target == y_target,
        (Impact::ResolvePending { filter: x_filter }, Impact::ResolvePending { filter: y_filter }) => x_filter.remaps_to(m, y_filter),
        (Impact::Emit { event: x_event, target: x_target, payload: x_payload }, Impact::Emit { event: y_event, target: y_target, payload: y_payload }) => m.event_spec(x_event) == Ok::<EventId, M::Error>(y_event) && x_target == y_target && x_payload.remaps_to(m, y_payload),
        (Impact::Custom { handler: x_handler, params: x_params, target: x_target }, Impact::Custom { handler: y_handler, params: y_params, target: y_target }) => m.handler_spec(x_handler) == Ok::<HandlerId, M::Error>(y_handler) && x_params == y_params && x_target == y_target,
        _ => false,
    }
}

/// Whether `x` and `y` hold the same contents.
pub open spec fn impact_same(x: Impact, y: Impact) -> bool
    decreases x,
{
    match (x, y) {
        (Impact::Retarget { shape: x_shape, filter: x_filter, max_targets: x_max_targets, exclude_primary: x_exclude_primary, inner: x_inner }, Impact::Retarget { shape: y_shape, filter: y_filter, max_targets: y_max_targets, exclude_primary: y_exclude_primary, inner: y_inner }) => x_shape.same_as(y_shape) && x_filter.same_as(y_filter) && x_max_targets.same_as(y_max_targets) && x_exclude_primary == y_exclude_primary && impacts_same(x_inner@, y_inner@),
        (Impact::If { cond: x_cond, then: x_then, els: x_els }, Impact::If { cond: y_cond, then: y_then, els: y_els }) => x_cond.same_as(y_cond) && impacts_same(x_then@, y_then@) && impacts_same(x_els@, y_els@),
        (Impact::Loop { kind: x_kind, inner: x_inner }, Impact::Loop { kind: y_kind, inner: y_inner }) => x_kind.same_as(y_kind) && impacts_same(x_inner@, y_inner@),
        (Impact::Delay { secs: x_secs, inner: x_inner }, Impact::Delay { secs: y_secs, inner: y_inner }) => x_secs.same_as(y_secs) && impacts_same(x_inner@, y_inner@),
        (Impact::Damage { amount: x_amount, dtype: x_dtype, target: x_target, flags: x_flags }, Impact::Damage { amount: y_amount, dtype: y_dtype, target: y_target, flags: y_flags }) => x_amount.same_as(y_amount) && x_dtype == y_dtype && x_target == y_target && x_flags == y_flags,
        (Impact::Heal { amount: x_amount, target: x_target, flags: x_flags }, Impact::Heal { amount: y_amount, target: y_target, flags: y_flags }) => x_amount.same_as(y_amount) && x_target == y_target && x_flags == y_flags,
        (Impact::AdjustPool { pool: x_pool, op: x_op, amount: x_amount, target: x_target }, Impact::AdjustPool { pool: y_pool, op: y_op, amount: y_amount, target: y_target }) => x_pool.same_as(y_pool) && x_op == y_op && x_amount.same_as(y_amount) && x_target == y_target,
        (Impact::ApplyModifiers { buff: x_buff, stacks: x_stacks, duration_override: x_duration_override, target: x_target }, Impact::ApplyModifiers { buff: y_buff, stacks: y_stacks, duration_override: y_duration_override, target: y_target }) => x_buff == y_buff && x_stacks.same_as(y_stacks) && x_duration_override.same_as(y_duration_override) && x_target == y_target,
        (Impact::RemoveModifiers { sel: x_sel, target: x_target }, Impact::RemoveModifiers { sel: y_sel, target: y_target }) => x_sel.same_as(y_sel) && x_target == y_target,
        (Impact::Dash { dir: x_dir, dist: x_dist, speed: x_speed, on_collision: x_on_collision, target: x_target }, Impact::Dash { dir: y_dir, dist: y_dist, speed: y_speed, on_collision: y_on_collision, target: y_target }) => x_dir == y_dir && x_dist.same_as(y_dist) && x_speed.same_as(y_speed) && impacts_same(x_on_collision@, y_on_collision@) && x_target == y_target,
        (Impact::Knockback { dir: x_dir, force: x_force, target: x_target }, Impact::Knockback { dir: y_dir, force: y_force, target: y_target }) => x_dir == y_dir && x_force.same_as(y_force) && x_target == y_target,
        (Impact::Teleport { dest: x_dest, target: x_target, record: x_record }, Impact::Teleport { dest: y_dest, target: y_target, record: y_record }) => x_dest.same_as(y_dest) && x_target == y_target && x_record == y_record,
        (Impact::Spawn { body: x_body, at: x_at, count: x_count, pattern: x_pattern }, Impact::Spawn { body: y_body, at: y_at, count: y_count, pattern: y_pattern }) => body_same(x_body, y_body) && x_at == y_at && x_count.same_as(y_count) && x_pattern.same_as(y_pattern),
        (Impact::CastAbility { slot: x_slot, target: x_target, value_scale: x_value_scale, cost: x_cost }, Impact::CastAbility { slot: y_slot, target: y_target, value_scale: y_value_scale, cost: y_cost }) => x_slot == y_slot && x_target == y_target && x_value_scale.same_as(y_value_scale) && x_cost == y_cost,
        (Impact::Interrupt { target: x_target }, Impact::Interrupt { target: y_target }) => x_target == y_target,
        (Impact::ResolvePending { filter: x_filter }, Impact::ResolvePending { filter: y_filter }) => x_filter.same_as(y_filter),
        (Impact::Emit { event: x_event, target: x_target, payload: x_payload }, Impact::Emit { event: y_event, target: y_target, payload: y_payload }) => x_event == y_event && x_target == y_target && x_payload.same_as(y_payload),
        (Impact::Custom { handler: x_handler, params: x_params, target: x_target }, Impact::Custom { handler: y_handler, params: y_params, target: y_target }) => x_handler == y_handler && x_params@ == y_params@ && x_target == y_target,
        _ => false,
    }
}

/// Whether `y` is `x` after a walk through `m` that stopped at its first
/// error: what it passed translated, the part that failed walked likewise,
/// the rest untouched.
pub open spec fn impact_walked<M: IdMap>(x: Impact, m: &M, y: Impact) -> bool
    decreases x,
{
    match (x, y) {
        (Impact::Retarget { shape: x_shape, filter: x_filter, max_targets: x_max_targets, exclude_primary: x_exclude_primary, inner: x_inner }, Impact::Retarget { shape: y_shape, filter: y_filter, max_targets: y_max_targets, exclude_primary: y_exclude_primary, inner: y_inner }) => x_exclude_primary == y_exclude_primary && (if (x_shape.remap_check(m)) is Err { x_shape.walked_to(m, y_shape) && x_filter == y_filter && x_max_targets == y_max_targets && x_inner == y_inner } else { x_shape.remaps_to(m, y_shape) && (if (x_filter.remap_check(m)) is Err { x_filter.walked_to(m, y_filter) && x_max_targets == y_max_targets && x_inner == y_inner } else { x_filter.remaps_to(m, y_filter) && (if (x_max_targets.remap_check(m)) is Err { x_max_targets.walked_to(m, y_max_targets) && x_inner == y_inner } else { x_max_targets.remaps_to(m, y_max_targets) && (if (impacts_check(x_inner@, m)) is Err { impacts_walked(x_inner@, m, y_inner@) } else { impacts_remaps(x_inner@, m, y_inner@) && true }) }) }) }),
        (Impact::If { cond: x_cond, then: x_then, els: x_els }, Impact::If { cond: y_cond, then: y_then, els: y_els }) => (if (x_cond.remap_check(m)) is Err { x_cond.walked_to(m, y_cond) && x_then == y_then && x_els == y_els } else { x_cond.remaps_to(m, y_cond) && (if (impacts_check(x_then@, m)) is Err { impacts_walked(x_then@, m, y_then@) && x_els == y_els } else { impacts_remaps(x_then@, m, y_then@) && (if (impacts_check(x_els@, m)) is Err { impacts_walked(x_els@, m, y_els@) } else { impacts_remaps(x_els@, m, y_els@) && true }) }) }),
        (Impact::Loop { kind: x_kind, inner: x_inner }, Impact::Loop { kind: y_kind, inner: y_inner }) => (if (x_kind.remap_check(m)) is Err { x_kind.walked_to(m, y_kind) && x_inner == y_inner } else { x_kind.remaps_to(m, y_kind) && (if (impacts_check(x_inner@, m)) is Err { impacts_walked(x_inner@, m, y_inner@) } else { impacts_remaps(x_inner@, m, y_inner@) && true }) }),
        (Impact::Delay { secs: x_secs, inner: x_inner }, Impact::Delay { secs: y_secs, inner: y_inner }) => (if (x_secs.remap_check(m)) is Err { x_secs.walked_to(m, y_secs) && x_inner == y_inner } else { x_secs.remaps_to(m, y_secs) && (if (impacts_check(x_inner@, m)) is Err { impacts_walked(x_inner@, m, y_inner@) } else { impacts_remaps(x_inner@, m, y_inner@) && true }) }),
        (Impact::Damage { amount: x_amount, dtype: x_dtype, target: x_target, flags: x_flags }, Impact::Damage { amount: y_amount, dtype: y_dtype, target: y_target, flags: y_flags }) => x_target == y_target && x_flags == y_flags && (if (x_amount.remap_check(m)) is Err { x_amount.walked_to(m, y_amount) && x_dtype == y_dtype } else { x_amount.remaps_to(m, y_amount) && (if (leaf(m.damage_type_spec(x_dtype))) is Err { x_dtype == y_dtype } else { m.damage_type_spec(x_dtype) == Ok::<DamageTypeId, M::Error>(y_dtype) && true }) }),
        (Impact::Heal { amount: x_amount, target: x_target, flags: x_flags }, Impact::Heal { amount: y_amount, target: y_target, flags: y_flags }) => x_target == y_target && x_flags == y_flags && (if (x_amount.remap_check(m)) is Err { x_amount.walked_to(m, y_amount) } else { x_amount.remaps_to(m, y_amount) && true }),
        (Impact::AdjustPool { pool: x_pool, op: x_op, amount: x_amount, target: x_target }, Impact::AdjustPool { pool: y_pool, op: y_op, amount: y_amount, target: y_target }) => x_op == y_op && x_target == y_target && (if (x_pool.remap_check(m)) is Err { x_pool.walked_to(m, y_pool) && x_amount == y_amount } else { x_pool.remaps_to(m, y_pool) && (if (x_amount.remap_check(m)) is Err { x_amount.walked_to(m, y_amount) } else { x_amount.remaps_to(m, y_amount) && true }) }),
        (Impact::ApplyModifiers { buff: x_buff, stacks: x_stacks, duration_override: x_duration_override, target: x_target }, Impact::ApplyModifiers { buff: y_buff, stacks: y_stacks, duration_override: y_duration_override, target: y_target }) => x_target == y_target && (if (leaf(m.buff_spec(x_buff))) is Err { x_buff == y_buff && x_stacks == y_stacks && x_duration_override == y_duration_override } else { m.buff_spec(x_buff) == Ok::<BuffId, M::Error>(y_buff) && (if (x_stacks.remap_check(m)) is Err { x_stacks.walked_to(m, y_stacks) && x_duration_override == y_duration_override } else { x_stacks.remaps_to(m, y_stacks) && (if (x_duration_override.remap_check(m)) is Err { x_duration_override.walked_to(m, y_duration_override) } else { x_duration_override.remaps_to(m, y_duration_override) && true }) }) }),
        (Impact::RemoveModifiers { sel: x_sel, target: x_target }, Impact::RemoveModifiers { sel: y_sel, target: y_target }) => x_target == y_target && (if (x_sel.remap_check(m)) is Err { x_sel.walked_to(m, y_sel) } else { x_sel.remaps_to(m, y_sel) && true }),
        (Impact::Dash { dir: x_dir, dist: x_dist, speed: x_speed, on_collision: x_on_collision, target: x_target }, Impact::Dash { dir: y_dir, dist: y_dist, speed: y_speed, on_collision: y_on_collision, target: y_target }) => x_dir == y_dir && x_target == y_target && (if (x_dist.remap_check(m)) is Err { x_dist.walked_to(m, y_dist) && x_speed == y_speed && x_on_collision == y_on_collision } else { x_dist.remaps_to(m, y_dist) && (if (x_speed.remap_check(m)) is Err { x_speed.walked_to(m, y_speed) && x_on_collision == y_on_collision } else { x_speed.remaps_to(m, y_speed) && (if (impacts_check(x_on_collision@, m)) is Err { impacts_walked(x_on_collision@, m, y_on_collision@) } else { impacts_remaps(x_on_collision@, m, y_on_collision@) && true }) }) }),
        (Impact::Knockback { dir: x_dir, force: x_force, target: x_target }, Impact::Knockback { dir: y_dir, force: y_force, target: y_target }) => x_dir == y_dir && x_target == y_target && (if (x_force.remap_check(m)) is Err { x_force.walked_to(m, y_force) } else { x_force.remaps_to(m, y_force) && true }),
        (Impact::Teleport { dest: x_dest, target: x_target, record: x_record }, Impact::Teleport { dest: y_dest, target: y_target, record: y_record }) => x_target == y_target && x_record == y_record && (if (x_dest.remap_check(m)) is Err { x_dest.walked_to(m, y_dest) } else { x_dest.remaps_to(m, y_dest) && true }),
        (Impact::Spawn { body: x_body, at: x_at, count: x_count, pattern: x_pattern }, Impact::Spawn { body: y_body, at: y_at, count: y_count, pattern: y_pattern }) => x_at == y_at && (if (body_check(x_body, m)) is Err { body_walked(x_body, m, y_body) && x_count == y_count && x_pattern == y_pattern } else { body_remaps(x_body, m, y_body) && (if (x_count.remap_check(m)) is Err { x_count.walked_to(m, y_count) && x_pattern == y_pattern } else { x_count.remaps_to(m, y_count) && (if (x_pattern.remap_check(m)) is Err { x_pattern.walked_to(m, y_pattern) } else { x_pattern.remaps_to(m, y_pattern) && true }) }) }),
        (Impact::CastAbility { slot: x_slot, target: x_target, value_scale: x_value_scale, cost: x_cost }, Impact::CastAbility { slot: y_slot, target: y_target, value_scale: y_value_scale, cost: y_cost }) => x_target == y_target && x_cost == y_cost && (if (leaf(m.slot_ref_spec(x_slot))) is Err { x_slot == y_slot && x_value_scale == y_value_scale } else { m.slot_ref_spec(x_slot) == Ok::<SlotRef, M::Error>(y_slot) && (if (x_value_scale.remap_check(m)) is Err { x_value_scale.walked_to(m, y_value_scale) } else { x_value_scale.remaps_to(m, y_value_scale) && true }) }),
        (Impact::Interrupt { target: x_target }, Impact::Interrupt { target: y_target }) => x_target == y_target && true,
        (Impact::ResolvePending { filter: x_filter }, Impact::ResolvePending { filter: y_filter }) => (if (x_filter.remap_check(m)) is Err { x_filter.walked_to(m, y_filter) } else { x_filter.remaps_to(m, y_filter) && true }),
        (Impact::Emit { event: x_event, target: x_target, payload: x_payload }, Impact::Emit { event: y_event, target: y_target, payload: y_payload }) => x_target == y_target && (if (leaf(m.event_spec(x_event))) is Err { x_event == y_event && x_payload == y_payload } else { m.event_spec(x_event) == Ok::<EventId, M::Error>(y_event) && (if (x_payload.remap_check(m)) is Err { x_payload.walked_to(m, y_payload) } else { x_payload.remaps_to(m, y_payload) && true }) }),
        (Impact::Custom { handler: x_handler, params: x_params, target: x_target }, Impact::Custom { handler: y_handler, params: y_params, target: y_target }) => x_params == y_params && x_target == y_target && (if (leaf(m.handler_spec(x_handler))) is Err { x_handler == y_handler } else { m.handler_spec(x_handler) == Ok::<HandlerId, M::Error>(y_handler) && true }),
        _ => false,
    }
}

/// Translate every interned handle inside `x` through `m`, stopping at the
/// map's first error.
#[verifier::rlimit(60)]
#[verifier::spinoff_prover]
pub fn remap_impact<M: IdMap>(x: &mut Impact, m: &M) -> (r: Result<(), M::Error>)
    ensures
        r == impact_check(*old(x), m),
        r is Ok ==> impact_remaps(*old(x), m, *final(x)),
        r is Err ==> impact_walked(*old(x), m, *final(x)),
    decreases *old(x),
{
    match x {
        Impact::Retarget { shape: x_shape, filter: x_filter, max_targets: x_max_targets, exclude_primary: _, inner: x_inner } => {
            let r = x_shape.remap_ids(m);
            if r.is_err() {
                return r;
            }
            let r = x_filter.remap_ids(m);
            if r.is_err() {
                return r;
            }
            let r = x_max_targets.remap_ids(m);
            if r.is_err() {
                return r;
            }
            let r = remap_impacts(x_inner, m);
            if r.is_err() {
                return r;
            }
        },
        Impact::If { cond: x_cond, then: x_then, els: x_els } => {
            let r = x_cond.remap_ids(m);
            if r.is_err() {
                return r;
            }
            let r = remap_impacts(x_then, m);
            if r.is_err() {
                return r;
            }
            let r = remap_impacts(x_els, m);
            if r.is_err() {
                return r;
            }
        },
        Impact::Loop { kind: x_kind, inner: x_inner } => {
            let r = x_kind.remap_ids(m);
            if r.is_err() {
                return r;
            }
            let r = remap_impacts(x_inner, m);
            if r.is_err() {
                return r;
            }
        },
        Impact::Delay { secs: x_secs, inner: x_inner } => {
            let r = x_secs.remap_ids(m);
            if r.is_err() {
                return r;
            }
            let r = remap_impacts(x_inner, m);
            if r.is_err() {
                return r;
            }
        },
        Impact::Damage { amount: x_amount, dtype: x_dtype, target: _, flags: _ } => {
            let r = x_amount.remap_ids(m);
            if r.is_err() {
                return r;
            }
            match m.damage_type(*x_dtype) {
                Ok(v) => { *x_dtype = v; },
                Err(e) => { return Err(e); },
            }
        },
        Impact::Heal { amount: x_amount, target: _, flags: _ } => {
            let r = x_amount.remap_ids(m);
            if r.is_err() {
                return r;
            }
        },
        Impact::AdjustPool { pool: x_pool, op: _, amount: x_amount, target: _ } => {
            let r = x_pool.remap_ids(m);
            if r.is_err() {
                return r;
            }
            let r = x_amount.remap_ids(m);
            if r.is_err() {
                return r;
            }
        },
        Impact::ApplyModifiers { buff: x_buff, stacks: x_stacks, duration_override: x_duration_override, target: _ } => {
            match m.buff(*x_buff) {
                Ok(v) => { *x_buff = v; },
                Err(e) => { return Err(e); },
            }
            let r = x_stacks.remap_ids(m);
            if r.is_err() {
                return r;
            }
            let r = x_duration_override.remap_ids(m);
            if r.is_err() {
                return r;
            }
        },
        Impact::RemoveModifiers { sel: x_sel, target: _ } => {
            let r = x_sel.remap_ids(m);
            if r.is_err() {
                return r;
            }
        },
        Impact::Dash { dir: _, dist: x_dist, speed: x_speed, on_collision: x_on_collision, target: _ } => {
            let r = x_dist.remap_ids(m);
            if r.is_err() {
                return r;
            }
            let r = x_speed.remap_ids(m);
            if r.is_err() {
                return r;
            }
            let r = remap_impacts(x_on_collision, m);
            if r.is_err() {
                return r;
            }
        },
        Impact::Knockback { dir: _, force: x_force, target: _ } => {
            let r = x_force.remap_ids(m);
            if r.is_err() {
                return r;
            }
        },
        Impact::Teleport { dest: x_dest, target: _, record: _ } => {
            let r = x_dest.remap_ids(m);
            if r.is_err() {
                return r;
            }
        },
        Impact::Spawn { body: x_body, at: _, count: x_count, pattern: x_pattern } => {
            let r = remap_body(x_body, m);
            if r.is_err() {
                return r;
            }
            let r = x_count.remap_ids(m);
            if r.is_err() {
                return r;
            }
            let r = x_pattern.remap_ids(m);
            if r.is_err() {
                return r;
            }
        },
        Impact::CastAbility { slot: x_slot, target: _, value_scale: x_value_scale, cost: _ } => {
            match m.slot_ref(*x_slot) {
                Ok(v) => { *x_slot = v; },
                Err(e) => { return Err(e); },
            }
            let r = x_value_scale.remap_ids(m);
            if r.is_err() {
                return r;
            }
        },
        Impact::Interrupt { target: _ } => {
        },
        Impact::ResolvePending { filter: x_filter } => {
            let r = x_filter.remap_ids(m);
            if r.is_err() {
                return r;
            }
        },
        Impact::Emit { event: x_event, target: _, payload: x_payload } => {
            match m.event(*x_event) {
                Ok(v) => { *x_event = v; },
                Err(e) => { return Err(e); },
            }
            let r = x_payload.remap_ids(m);
            if r.is_err() {
                return r;
            }
        },
        Impact::Custom { handler: x_handler, params: _, target: _ } => {
            match m.handler(*x_handler) {
                Ok(v) => { *x_handler = v; },
                Err(e) => { return Err(e); },
            }
        },
    }
    Ok(())
}

proof fn lemma_impact_total<M: IdMap>(x: Impact, m: &M)
    requires
        total(m),
    ensures
        impact_check(x, m) is Ok,
    decreases x,
{
    match x {
        Impact::Retarget { shape: x_shape, filter: x_filter, max_targets: x_max_targets, exclude_primary: x_exclude_primary, inner: x_inner } => { x_shape.lemma_total(m); x_filter.lemma_total(m); x_max_targets.lemma_total(m); lemma_impacts_total(x_inner@, m); },
        Impact::If { cond: x_cond, then: x_then, els: x_els } => { x_cond.lemma_total(m); lemma_impacts_total(x_then@, m); lemma_impacts_total(x_els@, m); },
        Impact::Loop { kind: x_kind, inner: x_inner } => { x_kind.lemma_total(m); lemma_impacts_total(x_inner@, m); },
        Impact::Delay { secs: x_secs, inner: x_inner } => { x_secs.lemma_total(m); lemma_impacts_total(x_inner@, m); },
        Impact::Damage { amount: x_amount, dtype: x_dtype, target: x_target, flags: x_flags } => { x_amount.lemma_total(m); },
        Impact::Heal { amount: x_amount, target: x_target, flags: x_flags } => { x_amount.lemma_total(m); },
        Impact::AdjustPool { pool: x_pool, op: x_op, amount: x_amount, target: x_target } => { x_pool.lemma_total(m); x_amount.lemma_total(m); },
        Impact::ApplyModifiers { buff: x_buff, stacks: x_stacks, duration_override: x_duration_override, target: x_target } => { x_stacks.lemma_total(m); x_duration_override.lemma_total(m); },
        Impact::RemoveModifiers { sel: x_sel, target: x_target } => { x_sel.lemma_total(m); },
        Impact::Dash { dir: x_dir, dist: x_dist, speed: x_speed, on_collision: x_on_collision, target: x_target } => { x_dist.lemma_total(m); x_speed.lemma_total(m); lemma_impacts_total(x_on_collision@, m); },
        Impact::Knockback { dir: x_dir, force: x_force, target: x_target } => { x_force.lemma_total(m); },
        Impact::Teleport { dest: x_dest, target: x_target, record: x_record } => { x_dest.lemma_total(m); },
        Impact::Spawn { body: x_body, at: x_at, count: x_count, pattern: x_pattern } => { lemma_body_total(x_body, m); x_count.lemma_total(m); x_pattern.lemma_total(m); },
        Impact::CastAbility { slot: x_slot, target: x_target, value_scale: x_value_scale, cost: x_cost } => { x_value_scale.lemma_total(m); },
        Impact::Interrupt { target: x_target } => {  },
        Impact::ResolvePending { filter: x_filter } => { x_filter.lemma_total(m); },
        Impact::Emit { event: x_event, target: x_target, payload: x_payload } => { x_payload.lemma_total(m); },
        Impact::Custom { handler: x_handler, params: x_params, target: x_target } => {  },
    }
}

proof fn lemma_impact_identity<M: IdMap>(x: Impact, m: &M, y: Impact)
    requires
        keeps_ids(m),
        impact_remaps(x, m, y),
    ensures
        impact_same(x, y),
    decreases x,
{
    match (x, y) {
        (Impact::Retarget { shape: x_shape, filter: x_filter, max_targets: x_max_targets, exclude_primary: x_exclude_primary, inner: x_inner }, Impact::Retarget { shape: y_shape, filter: y_filter, max_targets: y_max_targets, exclude_primary: y_exclude_primary, inner: y_inner }) => { x_shape.lemma_identity(m, y_shape); x_filter.lemma_identity(m, y_filter); x_max_targets.lemma_identity(m, y_max_targets); lemma_impacts_identity(x_inner@, m, y_inner@); },
        (Impact::If { cond: x_cond, then: x_then, els: x_els }, Impact::If { cond: y_cond, then: y_then, els: y_els }) => { x_cond.lemma_identity(m, y_cond); lemma_impacts_identity(x_then@, m, y_then@); lemma_impacts_identity(x_els@, m, y_els@); },
        (Impact::Loop { kind: x_kind, inner: x_inner }, Impact::Loop { kind: y_kind, inner: y_inner }) => { x_kind.lemma_identity(m, y_kind); lemma_impacts_identity(x_inner@, m, y_inner@); },
        (Impact::Delay { secs: x_secs, inner: x_inner }, Impact::Delay { secs: y_secs, inner: y_inner }) => { x_secs.lemma_identity(m, y_secs); lemma_impacts_identity(x_inner@, m, y_inner@); },
        (Impact::Damage { amount: x_amount, dtype: x_dtype, target: x_target, flags: x_flags }, Impact::Damage { amount: y_amount, dtype: y_dtype, target: y_target, flags: y_flags }) => { x_amount.lemma_identity(m, y_amount); },
        (Impact::Heal { amount: x_amount, target: x_target, flags: x_flags }, Impact::Heal { amount: y_amount, target: y_target, flags: y_flags }) => { x_amount.lemma_identity(m, y_amount); },
        (Impact::AdjustPool { pool: x_pool, op: x_op, amount: x_amount, target: x_target }, Impact::AdjustPool { pool: y_pool, op: y_op, amount: y_amount, target: y_target }) => { x_pool.lemma_identity(m, y_pool); x_amount.lemma_identity(m, y_amount); },
        (Impact::ApplyModifiers { buff: x_buff, stacks: x_stacks, duration_override: x_duration_override, target: x_target }, Impact::ApplyModifiers { buff: y_buff, stacks: y_stacks, duration_override: y_duration_override, target: y_target }) => { x_stacks.lemma_identity(m, y_stacks); x_duration_override.lemma_identity(m, y_duration_override); },
        (Impact::RemoveModifiers { sel: x_sel, target: x_target }, Impact::RemoveModifiers { sel: y_sel, target: y_target }) => { x_sel.lemma_identity(m, y_sel); },
        (Impact::Dash { dir: x_dir, dist: x_dist, speed: x_speed, on_collision: x_on_collision, target: x_target }, Impact::Dash { dir: y_dir, dist: y_dist, speed: y_speed, on_collision: y_on_collision, target: y_target }) => { x_dist.lemma_identity(m, y_dist); x_speed.lemma_identity(m, y_speed); lemma_impacts_identity(x_on_collision@, m, y_on_collision@); },
        (Impact::Knockback { dir: x_dir, force: x_force, target: x_target }, Impact::Knockback { dir: y_dir, force: y_force, target: y_target }) => { x_force.lemma_identity(m, y_force); },
        (Impact::Teleport { dest: x_dest, target: x_target, record: x_record }, Impact::Teleport { dest: y_dest, target: y_target, record: y_record }) => { x_dest.lemma_identity(m, y_dest); },
        (Impact::Spawn { body: x_body, at: x_at, count: x_count, pattern: x_pattern }, Impact::Spawn { body: y_body, at: y_at, count: y_count, pattern: y_pattern }) => { lemma_body_identity(x_body, m, y_body); x_count.lemma_identity(m, y_count); x_pattern.lemma_identity(m, y_pattern); },
        (Impact::CastAbility { slot: x_slot, target: x_target, value_scale: x_value_scale, cost: x_cost }, Impact::CastAbility { slot: y_slot, target: y_target, value_scale: y_value_scale, cost: y_cost }) => { x_value_scale.lemma_identity(m, y_value_scale); },
        (Impact::Interrupt { target: x_target }, Impact::Interrupt { target: y_target }) => {  },
        (Impact::ResolvePending { filter: x_filter }, Impact::ResolvePending { filter: y_filter }) => { x_filter.lemma_identity(m, y_filter); },
        (Impact::Emit { event: x_event, target: x_target, payload: x_payload }, Impact::Emit { event: y_event, target: y_target, payload: y_payload }) => { x_payload.lemma_identity(m, y_payload); },
        (Impact::Custom { handler: x_handler, params: x_params, target: x_target }, Impact::Custom { handler: y_handler, params: y_params, target: y_target }) => {  },
        _ => {},
    }
}

proof fn lemma_impact_stable<M: IdMap>(x: Impact, m: &M, a: Impact, b: Impact)
    requires
        settles(m),
        impact_remaps(x, m, a),
        impact_remaps(a, m, b),
    ensures
        impact_same(a, b),
    decreases x,
{
    match (x, a, b) {
        (Impact::Retarget { shape: x_shape, filter: x_filter, max_targets: x_max_targets, exclude_primary: x_exclude_primary, inner: x_inner }, Impact::Retarget { shape: a_shape, filter: a_filter, max_targets: a_max_targets, exclude_primary: a_exclude_primary, inner: a_inner }, Impact::Retarget { shape: b_shape, filter: b_filter, max_targets: b_max_targets, exclude_primary: b_exclude_primary, inner: b_inner }) => { x_shape.lemma_stable(m, a_shape, b_shape); x_filter.lemma_stable(m, a_filter, b_filter); x_max_targets.lemma_stable(m, a_max_targets, b_max_targets); lemma_impacts_stable(x_inner@, m, a_inner@, b_inner@); },
        (Impact::If { cond: x_cond, then: x_then, els: x_els }, Impact::If { cond: a_cond, then: a_then, els: a_els }, Impact::If { cond: b_cond, then: b_then, els: b_els }) => { x_cond.lemma_stable(m, a_cond, b_cond); lemma_impacts_stable(x_then@, m, a_then@, b_then@); lemma_impacts_stable(x_els@, m, a_els@, b_els@); },
        (Impact::Loop { kind: x_kind, inner: x_inner }, Impact::Loop { kind: a_kind, inner: a_inner }, Impact::Loop { kind: b_kind, inner: b_inner }) => { x_kind.lemma_stable(m, a_kind, b_kind); lemma_impacts_stable(x_inner@, m, a_inner@, b_inner@); },
        (Impact::Delay { secs: x_secs, inner: x_inner }, Impact::Delay { secs: a_secs, inner: a_inner }, Impact::Delay { secs: b_secs, inner: b_inner }) => { x_secs.lemma_stable(m, a_secs, b_secs); lemma_impacts_stable(x_inner@, m, a_inner@, b_inner@); },
        (Impact::Damage { amount: x_amount, dtype: x_dtype, target: x_target, flags: x_flags }, Impact::Damage { amount: a_amount, dtype: a_dtype, target: a_target, flags: a_flags }, Impact::Damage { amount: b_amount, dtype: b_dtype, target: b_target, flags: b_flags }) => { x_amount.lemma_stable(m, a_amount, b_amount); },
        (Impact::Heal { amount: x_amount, target: x_target, flags: x_flags }, Impact::Heal { amount: a_amount, target: a_target, flags: a_flags }, Impact::Heal { amount: b_amount, target: b_target, flags: b_flags }) => { x_amount.lemma_stable(m, a_amount, b_amount); },
        (Impact::AdjustPool { pool: x_pool, op: x_op, amount: x_amount, target: x_target }, Impact::AdjustPool { pool: a_pool, op: a_op, amount: a_amount, target: a_target }, Impact::AdjustPool { pool: b_pool, op: b_op, amount: b_amount, target: b_target }) => { x_pool.lemma_stable(m, a_pool, b_pool); x_amount.lemma_stable(m, a_amount, b_amount); },
        (Impact::ApplyModifiers { buff: x_buff, stacks: x_stacks, duration_override: x_duration_override, target: x_target }, Impact::ApplyModifiers { buff: a_buff, stacks: a_stacks, duration_override: a_duration_override, target: a_target }, Impact::ApplyModifiers { buff: b_buff, stacks: b_stacks, duration_override: b_duration_override, target: b_target }) => { x_stacks.lemma_stable(m, a_stacks, b_stacks); x_duration_override.lemma_stable(m, a_duration_override, b_duration_override); },
        (Impact::RemoveModifiers { sel: x_sel, target: x_target }, Impact::RemoveModifiers { sel: a_sel, target: a_target }, Impact::RemoveModifiers { sel: b_sel, target: b_target }) => { x_sel.lemma_stable(m, a_sel, b_sel); },
        (Impact::Dash { dir: x_dir, dist: x_dist, speed: x_speed, on_collision: x_on_collision, target: x_target }, Impact::Dash { dir: a_dir, dist: a_dist, speed: a_speed, on_collision: a_on_collision, target: a_target }, Impact::Dash { dir: b_dir, dist: b_dist, speed: b_speed, on_collision: b_on_collision, target: b_target }) => { x_dist.lemma_stable(m, a_dist, b_dist); x_speed.lemma_stable(m, a_speed, b_speed); lemma_impacts_stable(x_on_collision@, m, a_on_collision@, b_on_collision@); },
        (Impact::Knockback { dir: x_dir, force: x_force, target: x_target }, Impact::Knockback { dir: a_dir, force: a_force, target: a_target }, Impact::Knockback { dir: b_dir, force: b_force, target: b_target }) => { x_force.lemma_stable(m, a_force, b_force); },
        (Impact::Teleport { dest: x_dest, target: x_target, record: x_record }, Impact::Teleport { dest: a_dest, target: a_target, record: a_record }, Impact::Teleport { dest: b_dest, target: b_target, record: b_record }) => { x_dest.lemma_stable(m, a_dest, b_dest); },
        (Impact::Spawn { body: x_body, at: x_at, count: x_count, pattern: x_pattern }, Impact::Spawn { body: a_body, at: a_at, count: a_count, pattern: a_pattern }, Impact::Spawn { body: b_body, at: b_at, count: b_count, pattern: b_pattern }) => { lemma_body_stable(x_body, m, a_body, b_body); x_count.lemma_stable(m, a_count, b_count); x_pattern.lemma_stable(m, a_pattern, b_pattern); },
        (Impact::CastAbility { slot: x_slot, target: x_target, value_scale: x_value_scale, cost: x_cost }, Impact::CastAbility { slot: a_slot, target: a_target, value_scale: a_value_scale, cost: a_cost }, Impact::CastAbility { slot: b_slot, target: b_target, value_scale: b_value_scale, cost: b_cost }) => { x_value_scale.lemma_stable(m, a_value_scale, b_value_scale); },
        (Impact::Interrupt { target: x_target }, Impact::Interrupt { target: a_target }, Impact::Interrupt { target: b_target }) => {  },
        (Impact::ResolvePending { filter: x_filter }, Impact::ResolvePending { filter: a_filter }, Impact::ResolvePending { filter: b_filter }) => { x_filter.lemma_stable(m, a_filter, b_filter); },
        (Impact::Emit { event: x_event, target: x_target, payload: x_payload }, Impact::Emit { event: a_event, target: a_target, payload: a_payload }, Impact::Emit { event: b_event, target: b_target, payload: b_payload }) => { x_payload.lemma_stable(m, a_payload, b_payload); },
        (Impact::Custom { handler: x_handler, params: x_params, target: x_target }, Impact::Custom { handler: a_handler, params: a_params, target: a_target }, Impact::Custom { handler: b_handler, params: b_params, target: b_target }) => {  },
        _ => {},
    }
}

#[verifier::rlimit(60)]
#[verifier::spinoff_prover]
proof fn lemma_impact_walk_keeps<M: IdMap>(x: Impact, m: &M, y: Impact)
    requires
        keeps_ids(m),
        impact_walked(x, m, y),
    ensures
        impact_same(x, y),
    decreases x,
{
    match (x, y) {
        (Impact::Retarget { shape: x_shape, filter: x_filter, max_targets: x_max_targets, exclude_primary: x_exclude_primary, inner: x_inner }, Impact::Retarget { shape: y_shape, filter: y_filter, max_targets: y_max_targets, exclude_primary: y_exclude_primary, inner: y_inner }) => { if (x_shape.remap_check(m)) is Err { x_shape.lemma_walk_keeps(m, y_shape); x_filter.lemma_same_refl(m); x_max_targets.lemma_same_refl(m); lemma_impacts_same_refl(x_inner@, m); } else { x_shape.lemma_identity(m, y_shape); if (x_filter.remap_check(m)) is Err { x_filter.lemma_walk_keeps(m, y_filter); x_max_targets.lemma_same_refl(m); lemma_impacts_same_refl(x_inner@, m); } else { x_filter.lemma_identity(m, y_filter); if (x_max_targets.remap_check(m)) is Err { x_max_targets.lemma_walk_keeps(m, y_max_targets); lemma_impacts_same_refl(x_inner@, m); } else { x_max_targets.lemma_identity(m, y_max_targets); if (impacts_check(x_inner@, m)) is Err { lemma_impacts_walk_keeps(x_inner@, m, y_inner@); } else { lemma_impacts_identity(x_inner@, m, y_inner@);  } } } } },
        (Impact::If { cond: x_cond, then: x_then, els: x_els }, Impact::If { cond: y_cond, then: y_then, els: y_els }) => { if (x_cond.remap_check(m)) is Err { x_cond.lemma_walk_keeps(m, y_cond); lemma_impacts_same_refl(x_then@, m); lemma_impacts_same_refl(x_els@, m); } else { x_cond.lemma_identity(m, y_cond); if (impacts_check(x_then@, m)) is Err { lemma_impacts_walk_keeps(x_then@, m, y_then@); lemma_impacts_same_refl(x_els@, m); } else { lemma_impacts_identity(x_then@, m, y_then@); if (impacts_check(x_els@, m)) is Err { lemma_impacts_walk_keeps(x_els@, m, y_els@); } else { lemma_impacts_identity(x_els@, m, y_els@);  } } } },
        (Impact::Loop { kind: x_kind, inner: x_inner }, Impact::Loop { kind: y_kind, inner: y_inner }) => { if (x_kind.remap_check(m)) is Err { x_kind.lemma_walk_keeps(m, y_kind); lemma_impacts_same_refl(x_inner@, m); } else { x_kind.lemma_identity(m, y_kind); if (impacts_check(x_inner@, m)) is Err { lemma_impacts_walk_keeps(x_inner@, m, y_inner@); } else { lemma_impacts_identity(x_inner@, m, y_inner@);  } } },
        (Impact::Delay { secs: x_secs, inner: x_inner }, Impact::Delay { secs: y_secs, inner: y_inner }) => { if (x_secs.remap_check(m)) is Err { x_secs.lemma_walk_keeps(m, y_secs); lemma_impacts_same_refl(x_inner@, m); } else { x_secs.lemma_identity(m, y_secs); if (impacts_check(x_inner@, m)) is Err { lemma_impacts_walk_keeps(x_inner@, m, y_inner@); } else { lemma_impacts_identity(x_inner@, m, y_inner@);  } } },
        (Impact::Damage { amount: x_amount, dtype: x_dtype, target: x_target, flags: x_flags }, Impact::Damage { amount: y_amount, dtype: y_dtype, target: y_target, flags: y_flags }) => { if (x_amount.remap_check(m)) is Err { x_amount.lemma_walk_keeps(m, y_amount); } else { x_amount.lemma_identity(m, y_amount); if (leaf(m.damage_type_spec(x_dtype))) is Err {  } else {   } } },
        (Impact::Heal { amount: x_amount, target: x_target, flags: x_flags }, Impact::Heal { amount: y_amount, target: y_target, flags: y_flags }) => { if (x_amount.remap_check(m)) is Err { x_amount.lemma_walk_keeps(m, y_amount); } else { x_amount.lemma_identity(m, y_amount);  } },
        (Impact::AdjustPool { pool: x_pool, op: x_op, amount: x_amount, target: x_target }, Impact::AdjustPool { pool: y_pool, op: y_op, amount: y_amount, target: y_target }) => { if (x_pool.remap_check(m)) is Err { x_pool.lemma_walk_keeps(m, y_pool); x_amount.lemma_same_refl(m); } else { x_pool.lemma_identity(m, y_pool); if (x_amount.remap_check(m)) is Err { x_amount.lemma_walk_keeps(m, y_amount); } else { x_amount.lemma_identity(m, y_amount);  } } },
        (Impact::ApplyModifiers { buff: x_buff, stacks: x_stacks, duration_override: x_duration_override, target: x_target }, Impact::ApplyModifiers { buff: y_buff, stacks: y_stacks, duration_override: y_duration_override, target: y_target }) => { if (leaf(m.buff_spec(x_buff))) is Err { x_stacks.lemma_same_refl(m); x_duration_override.lemma_same_refl(m); } else {  if (x_stacks.remap_check(m)) is Err { x_stacks.lemma_walk_keeps(m, y_stacks); x_duration_override.lemma_same_refl(m); } else { x_stacks.lemma_identity(m, y_stacks); if (x_duration_override.remap_check(m)) is Err { x_duration_override.lemma_walk_keeps(m, y_duration_override); } else { x_duration_override.lemma_identity(m, y_duration_override);  } } } },
        (Impact::RemoveModifiers { sel: x_sel, target: x_target }, Impact::RemoveModifiers { sel: y_sel, target: y_target }) => { if (x_sel.remap_check(m)) is Err { x_sel.lemma_walk_keeps(m, y_sel); } else { x_sel.lemma_identity(m, y_sel);  } },
        (Impact::Dash { dir: x_dir, dist: x_dist, speed: x_speed, on_collision: x_on_collision, target: x_target }, Impact::Dash { dir: y_dir, dist: y_dist, speed: y_speed, on_collision: y_on_collision, target: y_target }) => { if (x_dist.remap_check(m)) is Err { x_dist.lemma_walk_keeps(m, y_dist); x_speed.lemma_same_refl(m); lemma_impacts_same_refl(x_on_collision@, m); } else { x_dist.lemma_identity(m, y_dist); if (x_speed.remap_check(m)) is Err { x_speed.lemma_walk_keeps(m, y_speed); lemma_impacts_same_refl(x_on_collision@, m); } else { x_speed.lemma_identity(m, y_speed); if (impacts_check(x_on_collision@, m)) is Err { lemma_impacts_walk_keeps(x_on_collision@, m, y_on_collision@); } else { lemma_impacts_identity(x_on_collision@, m, y_on_collision@);  } } } },
        (Impact::Knockback { dir: x_dir, force: x_force, target: x_target }, Impact::Knockback { dir: y_dir, force: y_force, target: y_target }) => { if (x_force.remap_check(m)) is Err { x_force.lemma_walk_keeps(m, y_force); } else { x_force.lemma_identity(m, y_force);  } },
        (Impact::Teleport { dest: x_dest, target: x_target, record: x_record }, Impact::Teleport { dest: y_dest, target: y_target, record: y_record }) => { if (x_dest.remap_check(m)) is Err { x_dest.lemma_walk_keeps(m, y_dest); } else { x_dest.lemma_identity(m, y_dest);  } },
        (Impact::Spawn { body: x_body, at: x_at, count: x_count, pattern: x_pattern }, Impact::Spawn { body: y_body, at: y_at, count: y_count, pattern: y_pattern }) => { if (body_check(x_body, m)) is Err { lemma_body_walk_keeps(x_body, m, y_body); x_count.lemma_same_refl(m); x_pattern.lemma_same_refl(m); } else { lemma_body_identity(x_body, m, y_body); if (x_count.remap_check(m)) is Err { x_count.lemma_walk_keeps(m, y_count); x_pattern.lemma_same_refl(m); } else { x_count.lemma_identity(m, y_count); if (x_pattern.remap_check(m)) is Err { x_pattern.lemma_walk_keeps(m, y_pattern); } else { x_pattern.lemma_identity(m, y_pattern);  } } } },
        (Impact::CastAbility { slot: x_slot, target: x_target, value_scale: x_value_scale, cost: x_cost }, Impact::CastAbility { slot: y_slot, target: y_target, value_scale: y_value_scale, cost: y_cost }) => { if (leaf(m.slot_ref_spec(x_slot))) is Err { x_value_scale.lemma_same_refl(m); } else {  if (x_value_scale.remap_check(m)) is Err { x_value_scale.lemma_walk_keeps(m, y_value_scale); } else { x_value_scale.lemma_identity(m, y_value_scale);  } } },
        (Impact::Interrupt { target: x_target }, Impact::Interrupt { target: y_target }) => {  },
        (Impact::ResolvePending { filter: x_filter }, Impact::ResolvePending { filter: y_filter }) => { if (x_filter.remap_check(m)) is Err { x_filter.lemma_walk_keeps(m, y_filter); } else { x_filter.lemma_identity(m, y_filter);  } },
        (Impact::Emit { event: x_event, target: x_target, payload: x_payload }, Impact::Emit { event: y_event, target: y_target, payload: y_payload }) => { if (leaf(m.event_spec(x_event))) is Err { x_payload.lemma_same_refl(m); } else {  if (x_payload.remap_check(m)) is Err { x_payload.lemma_walk_keeps(m, y_payload); } else { x_payload.lemma_identity(m, y_payload);  } } },
        (Impact::Custom { handler: x_handler, params: x_params, target: x_target }, Impact::Custom { handler: y_handler, params: y_params, target: y_target }) => { if (leaf(m.handler_spec(x_handler))) is Err {  } else {   } },
        _ => {},
    }
}

proof fn lemma_impact_same_refl<M: IdMap>(x: Impact, m: &M)
    ensures
        impact_same(x, x),
    decreases x,
{
    match x {
        Impact::Retarget { shape: x_shape, filter: x_filter, max_targets: x_max_targets, exclude_primary: x_exclude_primary, inner: x_inner } => { x_shape.lemma_same_refl(m); x_filter.lemma_same_refl(m); x_max_targets.lemma_same_refl(m); lemma_impacts_same_refl(x_inner@, m); },
        Impact::If { cond: x_cond, then: x_then, els: x_els } => { x_cond.lemma_same_refl(m); lemma_impacts_same_refl(x_then@, m); lemma_impacts_same_refl(x_els@, m); },
        Impact::Loop { kind: x_kind, inner: x_inner } => { x_kind.lemma_same_refl(m); lemma_impacts_same_refl(x_inner@, m); },
        Impact::Delay { secs: x_secs, inner: x_inner } => { x_secs.lemma_same_refl(m); lemma_impacts_same_refl(x_inner@, m); },
        Impact::Damage { amount: x_amount, dtype: x_dtype, target: x_target, flags: x_flags } => { x_amount.lemma_same_refl(m); },
        Impact::Heal { amount: x_amount, target: x_target, flags: x_flags } => { x_amount.lemma_same_refl(m); },
        Impact::AdjustPool { pool: x_pool, op: x_op, amount: x_amount, target: x_target } => { x_pool.lemma_same_refl(m); x_amount.lemma_same_refl(m); },
        Impact::ApplyModifiers { buff: x_buff, stacks: x_stacks, duration_override: x_duration_override, target: x_target } => { x_stacks.lemma_same_refl(m); x_duration_override.lemma_same_refl(m); },
        Impact::RemoveModifiers { sel: x_sel, target: x_target } => { x_sel.lemma_same_refl(m); },
        Impact::Dash { dir: x_dir, dist: x_dist, speed: x_speed, on_collision: x_on_collision, target: x_target } => { x_dist.lemma_same_refl(m); x_speed.lemma_same_refl(m); lemma_impacts_same_refl(x_on_collision@, m); },
        Impact::Knockback { dir: x_dir, force: x_force, target: x_target } => { x_force.lemma_same_refl(m); },
        Impact::Teleport { dest: x_dest, target: x_target, record: x_record } => { x_dest.lemma_same_refl(m); },
        Impact::Spawn { body: x_body, at: x_at, count: x_count, pattern: x_pattern } => { lemma_body_same_refl(x_body, m); x_count.lemma_same_refl(m); x_pattern.lemma_same_refl(m); },
        Impact::CastAbility { slot: x_slot, target: x_target, value_scale: x_value_scale, cost: x_cost } => { x_value_scale.lemma_same_refl(m); },
        Impact::Interrupt { target: x_target } => {  },
        Impact::ResolvePending { filter: x_filter } => { x_filter.lemma_same_refl(m); },
        Impact::Emit { event: x_event, target: x_target, payload: x_payload } => { x_payload.lemma_same_refl(m); },
        Impact::Custom { handler: x_handler, params: x_params, target: x_target } => {  },
    }
}

proof fn lemma_impact_lands<M1: IdMap, M2: IdMap>(x: Impact, m1: &M1, m2: &M2, a: Impact)
    requires
        lands_in(m1, m2),
        impact_remaps(x, m1, a),
    ensures
        impact_check(a, m2) is Ok,
    decreases x,
{
    match (x, a) {
        (Impact::Retarget { shape: x_shape, filter: x_filter, max_targets: x_max_targets, exclude_primary: x_exclude_primary, inner: x_inner }, Impact::Retarget { shape: a_shape, filter: a_filter, max_targets: a_max_targets, exclude_primary: a_exclude_primary, inner: a_inner }) => { x_shape.lemma_lands(m1, m2, a_shape); x_filter.lemma_lands(m1, m2, a_filter); x_max_targets.lemma_lands(m1, m2, a_max_targets); lemma_impacts_lands(x_inner@, m1, m2, a_inner@); },
        (Impact::If { cond: x_cond, then: x_then, els: x_els }, Impact::If { cond: a_cond, then: a_then, els: a_els }) => { x_cond.lemma_lands(m1, m2, a_cond); lemma_impacts_lands(x_then@, m1, m2, a_then@); lemma_impacts_lands(x_els@, m1, m2, a_els@); },
        (Impact::Loop { kind: x_kind, inner: x_inner }, Impact::Loop { kind: a_kind, inner: a_inner }) => { x_kind.lemma_lands(m1, m2, a_kind); lemma_impacts_lands(x_inner@, m1, m2, a_inner@); },
        (Impact::Delay { secs: x_secs, inner: x_inner }, Impact::Delay { secs: a_secs, inner: a_inner }) => { x_secs.lemma_lands(m1, m2, a_secs); lemma_impacts_lands(x_inner@, m1, m2, a_inner@); },
        (Impact::Damage { amount: x_amount, dtype: x_dtype, target: x_target, flags: x_flags }, Impact::Damage { amount: a_amount, dtype: a_dtype, target: a_target, flags: a_flags }) => { x_amount.lemma_lands(m1, m2, a_amount); },
        (Impact::Heal { amount: x_amount, target: x_target, flags: x_flags }, Impact::Heal { amount: a_amount, target: a_target, flags: a_flags }) => { x_amount.lemma_lands(m1, m2, a_amount); },
        (Impact::AdjustPool { pool: x_pool, op: x_op, amount: x_amount, target: x_target }, Impact::AdjustPool { pool: a_pool, op: a_op, amount: a_amount, target: a_target }) => { x_pool.lemma_lands(m1, m2, a_pool); x_amount.lemma_lands(m1, m2, a_amount); },
        (Impact::ApplyModifiers { buff: x_buff, stacks: x_stacks, duration_override: x_duration_override, target: x_target }, Impact::ApplyModifiers { buff: a_buff, stacks: a_stacks, duration_override: a_duration_override, target: a_target }) => { x_stacks.lemma_lands(m1, m2, a_stacks); x_duration_override.lemma_lands(m1, m2, a_duration_override); },
        (Impact::RemoveModifiers { sel: x_sel, target: x_target }, Impact::RemoveModifiers { sel: a_sel, target: a_target }) => { x_sel.lemma_lands(m1, m2, a_sel); },
        (Impact::Dash { dir: x_dir, dist: x_dist, speed: x_speed, on_collision: x_on_collision, target: x_target }, Impact::Dash { dir: a_dir, dist: a_dist, speed: a_speed, on_collision: a_on_collision, target: a_target }) => { x_dist.lemma_lands(m1, m2, a_dist); x_speed.lemma_lands(m1, m2, a_speed); lemma_impacts_lands(x_on_collision@, m1, m2, a_on_collision@); },
        (Impact::Knockback { dir: x_dir, force: x_force, target: x_target }, Impact::Knockback { dir: a_dir, force: a_force, target: a_target }) => { x_force.lemma_lands(m1, m2, a_force); },
        (Impact::Teleport { dest: x_dest, target: x_target, record: x_record }, Impact::Teleport { dest: a_dest, target: a_target, record: a_record }) => { x_dest.lemma_lands(m1, m2, a_dest); },
        (Impact::Spawn { body: x_body, at: x_at, count: x_count, pattern: x_pattern }, Impact::Spawn { body: a_body, at: a_at, count: a_count, pattern: a_pattern }) => { lemma_body_lands(x_body, m1, m2, a_body); x_count.lemma_lands(m1, m2, a_count); x_pattern.lemma_lands(m1, m2, a_pattern); },
        (Impact::CastAbility { slot: x_slot, target: x_target, value_scale: x_value_scale, cost: x_cost }, Impact::CastAbility { slot: a_slot, target: a_target, value_scale: a_value_scale, cost: a_cost }) => { x_value_scale.lemma_lands(m1, m2, a_value_scale); },
        (Impact::Interrupt { target: x_target }, Impact::Interrupt { target: a_target }) => {  },
        (Impact::ResolvePending { filter: x_filter }, Impact::ResolvePending { filter: a_filter }) => { x_filter.lemma_lands(m1, m2, a_filter); },
        (Impact::Emit { event: x_event, target: x_target, payload: x_payload }, Impact::Emit { event: a_event, target: a_target, payload: a_payload }) => { x_payload.lemma_lands(m1, m2, a_payload); },
        (Impact::Custom { handler: x_handler, params: x_params, target: x_target }, Impact::Custom { handler: a_handler, params: a_params, target: a_target }) => {  },
        _ => {},
    }
}

proof fn lemma_impact_fixed<M1: IdMap, M2: IdMap>(x: Impact, m1: &M1, m2: &M2, a: Impact, b: Impact)
    requires
        fixes_outputs(m1, m2),
        impact_remaps(x, m1, a),
        impact_remaps(a, m2, b),
    ensures
        impact_same(a, b),
    decreases x,
{
    match (x, a, b) {
        (Impact::Retarget { shape: x_shape, filter: x_filter, max_targets: x_max_targets, exclude_primary: x_exclude_primary, inner: x_inner }, Impact::Retarget { shape: a_shape, filter: a_filter, max_targets: a_max_targets, exclude_primary: a_exclude_primary, inner: a_inner }, Impact::Retarget { shape: b_shape, filter: b_filter, max_targets: b_max_targets, exclude_primary: b_exclude_primary, inner: b_inner }) => { x_shape.lemma_fixed(m1, m2, a_shape, b_shape); x_filter.lemma_fixed(m1, m2, a_filter, b_filter); x_max_targets.lemma_fixed(m1, m2, a_max_targets, b_max_targets); lemma_impacts_fixed(x_inner@, m1, m2, a_inner@, b_inner@); },
        (Impact::If { cond: x_cond, then: x_then, els: x_els }, Impact::If { cond: a_cond, then: a_then, els: a_els }, Impact::If { cond: b_cond, then: b_then, els: b_els }) => { x_cond.lemma_fixed(m1, m2, a_cond, b_cond); lemma_impacts_fixed(x_then@, m1, m2, a_then@, b_then@); lemma_impacts_fixed(x_els@, m1, m2, a_els@, b_els@); },
        (Impact::Loop { kind: x_kind, inner: x_inner }, Impact::Loop { kind: a_kind, inner: a_inner }, Impact::Loop { kind: b_kind, inner: b_inner }) => { x_kind.lemma_fixed(m1, m2, a_kind, b_kind); lemma_impacts_fixed(x_inner@, m1, m2, a_inner@, b_inner@); },
        (Impact::Delay { secs: x_secs, inner: x_inner }, Impact::Delay { secs: a_secs, inner: a_inner }, Impact::Delay { secs: b_secs, inner: b_inner }) => { x_secs.lemma_fixed(m1, m2, a_secs, b_secs); lemma_impacts_fixed(x_inner@, m1, m2, a_inner@, b_inner@); },
        (Impact::Damage { amount: x_amount, dtype: x_dtype, target: x_target, flags: x_flags }, Impact::Damage { amount: a_amount, dtype: a_dtype, target: a_target, flags: a_flags }, Impact::Damage { amount: b_amount, dtype: b_dtype, target: b_target, flags: b_flags }) => { x_amount.lemma_fixed(m1, m2, a_amount, b_amount); },
        (Impact::Heal { amount: x_amount, target: x_target, flags: x_flags }, Impact::Heal { amount: a_amount, target: a_target, flags: a_flags }, Impact::Heal { amount: b_amount, target: b_target, flags: b_flags }) => { x_amount.lemma_fixed(m1, m2, a_amount, b_amount); },
        (Impact::AdjustPool { pool: x_pool, op: x_op, amount: x_amount, target: x_target }, Impact::AdjustPool { pool: a_pool, op: a_op, amount: a_amount, target: a_target }, Impact::AdjustPool { pool: b_pool, op: b_op, amount: b_amount, target: b_target }) => { x_pool.lemma_fixed(m1, m2, a_pool, b_pool); x_amount.lemma_fixed(m1, m2, a_amount, b_amount); },
        (Impact::ApplyModifiers { buff: x_buff, stacks: x_stacks, duration_override: x_duration_override, target: x_target }, Impact::ApplyModifiers { buff: a_buff, stacks: a_stacks, duration_override: a_duration_override, target: a_target }, Impact::ApplyModifiers { buff: b_buff, stacks: b_stacks, duration_override: b_duration_override, target: b_target }) => { x_stacks.lemma_fixed(m1, m2, a_stacks, b_stacks); x_duration_override.lemma_fixed(m1, m2, a_duration_override, b_duration_override); },
        (Impact::RemoveModifiers { sel: x_sel, target: x_target }, Impact::RemoveModifiers { sel: a_sel, target: a_target }, Impact::RemoveModifiers { sel: b_sel, target: b_target }) => { x_sel.lemma_fixed(m1, m2, a_sel, b_sel); },
        (Impact::Dash { dir: x_dir, dist: x_dist, speed: x_speed, on_collision: x_on_collision, target: x_target }, Impact::Dash { dir: a_dir, dist: a_dist, speed: a_speed, on_collision: a_on_collision, target: a_target }, Impact::Dash { dir: b_dir, dist: b_dist, speed: b_speed, on_collision: b_on_collision, target: b_target }) => { x_dist.lemma_fixed(m1, m2, a_dist, b_dist); x_speed.lemma_fixed(m1, m2, a_speed, b_speed); lemma_impacts_fixed(x_on_collision@, m1, m2, a_on_collision@, b_on_collision@); },
        (Impact::Knockback { dir: x_dir, force: x_force, target: x_target }, Impact::Knockback { dir: a_dir, force: a_force, target: a_target }, Impact::Knockback { dir: b_dir, force: b_force, target: b_target }) => { x_force.lemma_fixed(m1, m2, a_force, b_force); },
        (Impact::Teleport { dest: x_dest, target: x_target, record: x_record }, Impact::Teleport { dest: a_dest, target: a_target, record: a_record }, Impact::Teleport { dest: b_dest, target: b_target, record: b_record }) => { x_dest.lemma_fixed(m1, m2, a_dest, b_dest); },
        (Impact::Spawn { body: x_body, at: x_at, count: x_count, pattern: x_pattern }, Impact::Spawn { body: a_body, at: a_at, count: a_count, pattern: a_pattern }, Impact::Spawn { body: b_body, at: b_at, count: b_count, pattern: b_pattern }) => { lemma_body_fixed(x_body, m1, m2, a_body, b_body); x_count.lemma_fixed(m1, m2, a_count, b_count); x_pattern.lemma_fixed(m1, m2, a_pattern, b_pattern); },
        (Impact::CastAbility { slot: x_slot, target: x_target, value_scale: x_value_scale, cost: x_cost }, Impact::CastAbility { slot: a_slot, target: a_target, value_scale: a_value_scale, cost: a_cost }, Impact::CastAbility { slot: b_slot, target: b_target, value_scale: b_value_scale, cost: b_cost }) => { x_value_scale.lemma_fixed(m1, m2, a_value_scale, b_value_scale); },
        (Impact::Interrupt { target: x_target }, Impact::Interrupt { target: a_target }, Impact::Interrupt { target: b_target }) => {  },
        (Impact::ResolvePending { filter: x_filter }, Impact::ResolvePending { filter: a_filter }, Impact::ResolvePending { filter: b_filter }) => { x_filter.lemma_fixed(m1, m2, a_filter, b_filter); },
        (Impact::Emit { event: x_event, target: x_target, payload: x_payload }, Impact::Emit { event: a_event, target: a_target, payload: a_payload }, Impact::Emit { event: b_event, target: b_target, payload: b_payload }) => { x_payload.lemma_fixed(m1, m2, a_payload, b_payload); },
        (Impact::Custom { handler: x_handler, params: x_params, target: x_target }, Impact::Custom { handler: a_handler, params: a_params, target: a_target }, Impact::Custom { handler: b_handler, params: b_params, target: b_target }) => {  },
        _ => {},
    }
}

proof fn lemma_impact_compose<M1: IdMap, M2: IdMap, M12: IdMap>(x: Impact, m1: &M1, m2: &M2, m12: &M12, a: Impact, b: Impact)
    requires
        composes(m1, m2, m12),
        impact_remaps(x, m1, a),
        impact_remaps(a, m2, b),
    ensures
        impact_remaps(x, m12, b),
    decreases x,
{
    match (x, a, b) {
        (Impact::Retarget { shape: x_shape, filter: x_filter, max_targets: x_max_targets, exclude_primary: x_exclude_primary, inner: x_inner }, Impact::Retarget { shape: a_shape, filter: a_filter, max_targets: a_max_targets, exclude_primary: a_exclude_primary, inner: a_inner }, Impact::Retarget { shape: b_shape, filter: b_filter, max_targets: b_max_targets, exclude_primary: b_exclude_primary, inner: b_inner }) => { x_shape.lemma_compose(m1, m2, m12, a_shape, b_shape); x_filter.lemma_compose(m1, m2, m12, a_filter, b_filter); x_max_targets.lemma_compose(m1, m2, m12, a_max_targets, b_max_targets); lemma_impacts_compose(x_inner@, m1, m2, m12, a_inner@, b_inner@); },
        (Impact::If { cond: x_cond, then: x_then, els: x_els }, Impact::If { cond: a_cond, then: a_then, els: a_els }, Impact::If { cond: b_cond, then: b_then, els: b_els }) => { x_cond.lemma_compose(m1, m2, m12, a_cond, b_cond); lemma_impacts_compose(x_then@, m1, m2, m12, a_then@, b_then@); lemma_impacts_compose(x_els@, m1, m2, m12, a_els@, b_els@); },
        (Impact::Loop { kind: x_kind, inner: x_inner }, Impact::Loop { kind: a_kind, inner: a_inner }, Impact::Loop { kind: b_kind, inner: b_inner }) => { x_kind.lemma_compose(m1, m2, m12, a_kind, b_kind); lemma_impacts_compose(x_inner@, m1, m2, m12, a_inner@, b_inner@); },
        (Impact::Delay { secs: x_secs, inner: x_inner }, Impact::Delay { secs: a_secs, inner: a_inner }, Impact::Delay { secs: b_secs, inner: b_inner }) => { x_secs.lemma_compose(m1, m2, m12, a_secs, b_secs); lemma_impacts_compose(x_inner@, m1, m2, m12, a_inner@, b_inner@); },
        (Impact::Damage { amount: x_amount, dtype: x_dtype, target: x_target, flags: x_flags }, Impact::Damage { amount: a_amount, dtype: a_dtype, target: a_target, flags: a_flags }, Impact::Damage { amount: b_amount, dtype: b_dtype, target: b_target, flags: b_flags }) => { x_amount.lemma_compose(m1, m2, m12, a_amount, b_amount); },
        (Impact::Heal { amount: x_amount, target: x_target, flags: x_flags }, Impact::Heal { amount: a_amount, target: a_target, flags: a_flags }, Impact::Heal { amount: b_amount, target: b_target, flags: b_flags }) => { x_amount.lemma_compose(m1, m2, m12, a_amount, b_amount); },
        (Impact::AdjustPool { pool: x_pool, op: x_op, amount: x_amount, target: x_target }, Impact::AdjustPool { pool: a_pool, op: a_op, amount: a_amount, target: a_target }, Impact::AdjustPool { pool: b_pool, op: b_op, amount: b_amount, target: b_target }) => { x_pool.lemma_compose(m1, m2, m12, a_pool, b_pool); x_amount.lemma_compose(m1, m2, m12, a_amount, b_amount); },
        (Impact::ApplyModifiers { buff: x_buff, stacks: x_stacks, duration_override: x_duration_override, target: x_target }, Impact::ApplyModifiers { buff: a_buff, stacks: a_stacks, duration_override: a_duration_override, target: a_target }, Impact::ApplyModifiers { buff: b_buff, stacks: b_stacks, duration_override: b_duration_override, target: b_target }) => { x_stacks.lemma_compose(m1, m2, m12, a_stacks, b_stacks); x_duration_override.lemma_compose(m1, m2, m12, a_duration_override, b_duration_override); },
        (Impact::RemoveModifiers { sel: x_sel, target: x_target }, Impact::RemoveModifiers { sel: a_sel, target: a_target }, Impact::RemoveModifiers { sel: b_sel, target: b_target }) => { x_sel.lemma_compose(m1, m2, m12, a_sel, b_sel); },
        (Impact::Dash { dir: x_dir, dist: x_dist, speed: x_speed, on_collision: x_on_collision, target: x_target }, Impact::Dash { dir: a_dir, dist: a_dist, speed: a_speed, on_collision: a_on_collision, target: a_target }, Impact::Dash { dir: b_dir, dist: b_dist, speed: b_speed, on_collision: b_on_collision, target: b_target }) => { x_dist.lemma_compose(m1, m2, m12, a_dist, b_dist); x_speed.lemma_compose(m1, m2, m12, a_speed, b_speed); lemma_impacts_compose(x_on_collision@, m1, m2, m12, a_on_collision@, b_on_collision@); },
        (Impact::Knockback { dir: x_dir, force: x_force, target: x_target }, Impact::Knockback { dir: a_dir, force: a_force, target: a_target }, Impact::Knockback { dir: b_dir, force: b_force, target: b_target }) => { x_force.lemma_compose(m1, m2, m12, a_force, b_force); },
        (Impact::Teleport { dest: x_dest, target: x_target, record: x_record }, Impact::Teleport { dest: a_dest, target: a_target, record: a_record }, Impact::Teleport { dest: b_dest, target: b_target, record: b_record }) => { x_dest.lemma_compose(m1, m2, m12, a_dest, b_dest); },
        (Impact::Spawn { body: x_body, at: x_at, count: x_count, pattern: x_pattern }, Impact::Spawn { body: a_body, at: a_at, count: a_count, pattern: a_pattern }, Impact::Spawn { body: b_body, at: b_at, count: b_count, pattern: b_pattern }) => { lemma_body_compose(x_body, m1, m2, m12, a_body, b_body); x_count.lemma_compose(m1, m2, m12, a_count, b_count); x_pattern.lemma_compose(m1, m2, m12, a_pattern, b_pattern); },
        (Impact::CastAbility { slot: x_slot, target: x_target, value_scale: x_value_scale, cost: x_cost }, Impact::CastAbility { slot: a_slot, target: a_target, value_scale: a_value_scale, cost: a_cost }, Impact::CastAbility { slot: b_slot, target: b_target, value_scale: b_value_scale, cost: b_cost }) => { x_value_scale.lemma_compose(m1, m2, m12, a_value_scale, b_value_scale); },
        (Impact::Interrupt { target: x_target }, Impact::Interrupt { target: a_target }, Impact::Interrupt { target: b_target }) => {  },
        (Impact::ResolvePending { filter: x_filter }, Impact::ResolvePending { filter: a_filter }, Impact::ResolvePending { filter: b_filter }) => { x_filter.lemma_compose(m1, m2, m12, a_filter, b_filter); },
        (Impact::Emit { event: x_event, target: x_target, payload: x_payload }, Impact::Emit { event: a_event, target: a_target, payload: a_payload }, Impact::Emit { event: b_event, target: b_target, payload: b_payload }) => { x_payload.lemma_compose(m1, m2, m12, a_payload, b_payload); },
        (Impact::Custom { handler: x_handler, params: x_params, target: x_target }, Impact::Custom { handler: a_handler, params: a_params, target: a_target }, Impact::Custom { handler: b_handler, params: b_params, target: b_target }) => {  },
        _ => {},
    }
}

impl Contents for Impact {
    open spec fn same_as(&self, other: Self) -> bool {
        impact_same(*self, other)
    }
}

impl<M: IdMap> RemapIds<M> for Impact {
    open spec fn remap_check(&self, m: &M) -> Result<(), M::Error> {
        impact_check(*self, m)
    }

    open spec fn remaps_to(&self, m: &M, new: Self) -> bool {
        impact_remaps(*self, m, new)
    }

    open spec fn walked_to(&self, m: &M, new: Self) -> bool {
        impact_walked(*self, m, new)
    }

    fn remap_ids(&mut self, m: &M) -> (r: Result<(), M::Error>) {
        remap_impact(self, m)
    }

    proof fn lemma_total(&self, m: &M) {
        lemma_impact_total(*self, m);
    }

    proof fn lemma_identity(&self, m: &M, new: Self) {
        lemma_impact_identity(*self, m, new);
    }

    proof fn lemma_stable(&self, m: &M, a: Self, b: Self) {
        lemma_impact_stable(*self, m, a, b);
    }

    proof fn lemma_walk_keeps(&self, m: &M, new: Self) {
        lemma_impact_walk_keeps(*self, m, new);
    }

    proof fn lemma_same_refl(&self, m: &M) {
        lemma_impact_same_refl(*self, m);
    }
}

impl<M1: IdMap, M2: IdMap> RemapPair<M1, M2> for Impact {
    proof fn lemma_lands(&self, m1: &M1, m2: &M2, a: Self) {
        lemma_impact_lands(*self, m1, m2, a);
    }

    proof fn lemma_fixed(&self, m1: &M1, m2: &M2, a: Self, b: Self) {
        lemma_impact_fixed(*self, m1, m2, a, b);
    }
}

impl<M1: IdMap, M2: IdMap, M12: IdMap> RemapCompose<M1, M2, M12> for Impact {
    proof fn lemma_compose(&self, m1: &M1, m2: &M2, m12: &M12, a: Self, b: Self) {
        lemma_impact_compose(*self, m1, m2, m12, a, b);
    }
}

/// The first error the walk over a `WidgetKind` meets, in walk order.
pub open spec fn widget_kind_check<M: IdMap>(x: WidgetKind, m: &M) -> Result<(), M::Error>
    decreases x,
{
    match x {
        WidgetKind::Panel { children: x_children } => then(widgets_check(x_children@, m), Ok(())),
        WidgetKind::Text { text: x_text } => then(x_text.remap_check(m), Ok(())),
        WidgetKind::Bar { value: x_value } => then(x_value.remap_check(m), Ok(())),
        WidgetKind::Icon => Ok(()),
        WidgetKind::Button { action: x_action, children: x_children } => then(x_action.remap_check(m), widgets_check(x_children@, m)),
        WidgetKind::AbilitySlot { slot: x_slot, key_hint: x_key_hint } => Ok(()),
        WidgetKind::TalentIcon { tier: x_tier, option: x_option } => Ok(()),
    }
}

/// Whether `y` is `x` with every interned handle translated through `m`.
pub open spec fn widget_kind_remaps<M: IdMap>(x: WidgetKind, m: &M, y: WidgetKind) -> bool
    decreases x,
{
    match (x, y) {
        (WidgetKind::Panel { children: x_children }, WidgetKind::Panel { children: y_children }) => widgets_remaps(x_children@, m, y_children@),
        (WidgetKind::Text { text: x_text }, WidgetKind::Text { text: y_text }) => x_text.remaps_to(m, y_text),
        (WidgetKind::Bar { value: x_value }, WidgetKind::Bar { value: y_value }) => x_value.remaps_to(m, y_value),
        (WidgetKind::Icon, WidgetKind::Icon) => true,
        (WidgetKind::Button { action: x_action, children: x_children }, WidgetKind::Button { action: y_action, children: y_children }) => x_action.remaps_to(m, y_action) && widgets_remaps(x_children@, m, y_children@),
        (WidgetKind::AbilitySlot { slot: x_slot, key_hint: x_key_hint }, WidgetKind::AbilitySlot { slot: y_slot, key_hint: y_key_hint }) => x_slot == y_slot && x_key_hint == y_key_hint,
        (WidgetKind::TalentIcon { tier: x_tier, option: x_option }, WidgetKind::TalentIcon { tier: y_tier, option: y_option }) => x_tier == y_tier && x_option == y_option,
        _ => false,
    }
}

/// Whether `x` and `y` hold the same contents.
pub open spec fn widget_kind_same(x: WidgetKind, y: WidgetKind) -> bool
    decreases x,
{
    match (x, y) {
        (WidgetKind::Panel { children: x_children }, WidgetKind::Panel { children: y_children }) => widgets_same(x_children@, y_children@),
        (WidgetKind::Text { text: x_text }, WidgetKind::Text { text: y_text }) => x_text.same_as(y_text),
        (WidgetKind::Bar { value: x_value }, WidgetKind::Bar { value: y_value }) => x_value.same_as(y_value),
        (WidgetKind::Icon, WidgetKind::Icon) => true,
        (WidgetKind::Button { action: x_action, children: x_children }, WidgetKind::Button { action: y_action, children: y_children }) => x_action.same_as(y_action) && widgets_same(x_children@, y_children@),
        (WidgetKind::AbilitySlot { slot: x_slot, key_hint: x_key_hint }, WidgetKind::AbilitySlot { slot: y_slot, key_hint: y_key_hint }) => x_slot == y_slot && x_key_hint@ == y_key_hint@,
        (WidgetKind::TalentIcon { tier: x_tier, option: x_option }, WidgetKind::TalentIcon { tier: y_tier, option: y_option }) => x_tier == y_tier && x_option == y_option,
        _ => false,
    }
}

/// Whether `y` is `x` after a walk through `m` that stopped at its first
/// error: what it passed translated, the part that failed walked likewise,
/// the rest untouched.
pub open spec fn widget_kind_walked<M: IdMap>(x: WidgetKind, m: &M, y: WidgetKind) -> bool
    decreases x,
{
    match (x, y) {
        (WidgetKind::Panel { children: x_children }, WidgetKind::Panel { children: y_children }) => (if (widgets_check(x_children@, m)) is Err { widgets_walked(x_children@, m, y_children@) } else { widgets_remaps(x_children@, m, y_children@) && true }),
        (WidgetKind::Text { text: x_text }, WidgetKind::Text { text: y_text }) => (if (x_text.remap_check(m)) is Err { x_text.walked_to(m, y_text) } else { x_text.remaps_to(m, y_text) && true }),
        (WidgetKind::Bar { value: x_value }, WidgetKind::Bar { value: y_value }) => (if (x_value.remap_check(m)) is Err { x_value.walked_to(m, y_value) } else { x_value.remaps_to(m, y_value) && true }),
        (WidgetKind::Icon, WidgetKind::Icon) => true,
        (WidgetKind::Button { action: x_action, children: x_children }, WidgetKind::Button { action: y_action, children: y_children }) => (if (x_action.remap_check(m)) is Err { x_action.walked_to(m, y_action) && x_children == y_children } else { x_action.remaps_to(m, y_action) && (if (widgets_check(x_children@, m)) is Err { widgets_walked(x_children@, m, y_children@) } else { widgets_remaps(x_children@, m, y_children@) && true }) }),
        (WidgetKind::AbilitySlot { slot: x_slot, key_hint: x_key_hint }, WidgetKind::AbilitySlot { slot: y_slot, key_hint: y_key_hint }) => x_slot == y_slot && x_key_hint == y_key_hint && true,
        (WidgetKind::TalentIcon { tier: x_tier, option: x_option }, WidgetKind::TalentIcon { tier: y_tier, option: y_option }) => x_tier == y_tier && x_option == y_option && true,
        _ => false,
    }
}

/// Translate every interned handle inside `x` through `m`, stopping at the
/// map's first error.
#[verifier::rlimit(60)]
#[verifier::spinoff_prover]
pub fn remap_widget_kind<M: IdMap>(x: &mut WidgetKind, m: &M) -> (r: Result<(), M::Error>)
    ensures
        r == widget_kind_check(*old(x), m),
        r is Ok ==> widget_kind_remaps(*old(x), m, *final(x)),
        r is Err ==> widget_kind_walked(*old(x), m, *final(x)),
    decreases *old(x),
{
    match x {
        WidgetKind::Panel { children: x_children } => {
            let r = remap_widgets(x_children, m);
            if r.is_err() {
                return r;
            }
        },
        WidgetKind::Text { text: x_text } => {
            let r = x_text.remap_ids(m);
            if r.is_err() {
                return r;
            }
        },
        WidgetKind::Bar { value: x_value } => {
            let r = x_value.remap_ids(m);
            if r.is_err() {
                return r;
            }
        },
        WidgetKind::Icon => {
        },
        WidgetKind::Button { action: x_action, children: x_children } => {
            let r = x_action.remap_ids(m);
            if r.is_err() {
                return r;
            }
            let r = remap_widgets(x_children, m);
            if r.is_err() {
                return r;
            }
        },
        WidgetKind::AbilitySlot { slot: _, key_hint: _ } => {
        },
        WidgetKind::TalentIcon { tier: _, option: _ } => {
        },
    }
    Ok(())
}

proof fn lemma_widget_kind_total<M: IdMap>(x: WidgetKind, m: &M)
    requires
        total(m),
    ensures
        widget_kind_check(x, m) is Ok,
    decreases x,
{
    match x {
        WidgetKind::Panel { children: x_children } => { lemma_widgets_total(x_children@, m); },
        WidgetKind::Text { text: x_text } => { x_text.lemma_total(m); },
        WidgetKind::Bar { value: x_value } => { x_value.lemma_total(m); },
        WidgetKind::Icon => {  },
        WidgetKind::Button { action: x_action, children: x_children } => { x_action.lemma_total(m); lemma_widgets_total(x_children@, m); },
        WidgetKind::AbilitySlot { slot: x_slot, key_hint: x_key_hint } => {  },
        WidgetKind::TalentIcon { tier: x_tier, option: x_option } => {  },
    }
}

proof fn lemma_widget_kind_identity<M: IdMap>(x: WidgetKind, m: &M, y: WidgetKind)
    requires
        keeps_ids(m),
        widget_kind_remaps(x, m, y),
    ensures
        widget_kind_same(x, y),
    decreases x,
{
    match (x, y) {
        (WidgetKind::Panel { children: x_children }, WidgetKind::Panel { children: y_children }) => { lemma_widgets_identity(x_children@, m, y_children@); },
        (WidgetKind::Text { text: x_text }, WidgetKind::Text { text: y_text }) => { x_text.lemma_identity(m, y_text); },
        (WidgetKind::Bar { value: x_value }, WidgetKind::Bar { value: y_value }) => { x_value.lemma_identity(m, y_value); },
        (WidgetKind::Icon, WidgetKind::Icon) => {  },
        (WidgetKind::Button { action: x_action, children: x_children }, WidgetKind::Button { action: y_action, children: y_children }) => { x_action.lemma_identity(m, y_action); lemma_widgets_identity(x_children@, m, y_children@); },
        (WidgetKind::AbilitySlot { slot: x_slot, key_hint: x_key_hint }, WidgetKind::AbilitySlot { slot: y_slot, key_hint: y_key_hint }) => {  },
        (WidgetKind::TalentIcon { tier: x_tier, option: x_option }, WidgetKind::TalentIcon { tier: y_tier, option: y_option }) => {  },
        _ => {},
    }
}

proof fn lemma_widget_kind_stable<M: IdMap>(x: WidgetKind, m: &M, a: WidgetKind, b: WidgetKind)
    requires
        settles(m),
        widget_kind_remaps(x, m, a),
        widget_kind_remaps(a, m, b),
    ensures
        widget_kind_same(a, b),
    decreases x,
{
    match (x, a, b) {
        (WidgetKind::Panel { children: x_children }, WidgetKind::Panel { children: a_children }, WidgetKind::Panel { children: b_children }) => { lemma_widgets_stable(x_children@, m, a_children@, b_children@); },
        (WidgetKind::Text { text: x_text }, WidgetKind::Text { text: a_text }, WidgetKind::Text { text: b_text }) => { x_text.lemma_stable(m, a_text, b_text); },
        (WidgetKind::Bar { value: x_value }, WidgetKind::Bar { value: a_value }, WidgetKind::Bar { value: b_value }) => { x_value.lemma_stable(m, a_value, b_value); },
        (WidgetKind::Icon, WidgetKind::Icon, WidgetKind::Icon) => {  },
        (WidgetKind::Button { action: x_action, children: x_children }, WidgetKind::Button { action: a_action, children: a_children }, WidgetKind::Button { action: b_action, children: b_children }) => { x_action.lemma_stable(m, a_action, b_action); lemma_widgets_stable(x_children@, m, a_children@, b_children@); },
        (WidgetKind::AbilitySlot { slot: x_slot, key_hint: x_key_hint }, WidgetKind::AbilitySlot { slot: a_slot, key_hint: a_key_hint }, WidgetKind::AbilitySlot { slot: b_slot, key_hint: b_key_hint }) => {  },
        (WidgetKind::TalentIcon { tier: x_tier, option: x_option }, WidgetKind::TalentIcon { tier: a_tier, option: a_option }, WidgetKind::TalentIcon { tier: b_tier, option: b_option }) => {  },
        _ => {},
    }
}

#[verifier::rlimit(60)]
#[verifier::spinoff_prover]
proof fn lemma_widget_kind_walk_keeps<M: IdMap>(x: WidgetKind, m: &M, y: WidgetKind)
    requires
        keeps_ids(m),
        widget_kind_walked(x, m, y),
    ensures
        widget_kind_same(x, y),
    decreases x,
{
    match (x, y) {
        (WidgetKind::Panel { children: x_children }, WidgetKind::Panel { children: y_children }) => { if (widgets_check(x_children@, m)) is Err { lemma_widgets_walk_keeps(x_children@, m, y_children@); } else { lemma_widgets_identity(x_children@, m, y_children@);  } },
        (WidgetKind::Text { text: x_text }, WidgetKind::Text { text: y_text }) => { if (x_text.remap_check(m)) is Err { x_text.lemma_walk_keeps(m, y_text); } else { x_text.lemma_identity(m, y_text);  } },
        (WidgetKind::Bar { value: x_value }, WidgetKind::Bar { value: y_value }) => { if (x_value.remap_check(m)) is Err { x_value.lemma_walk_keeps(m, y_value); } else { x_value.lemma_identity(m, y_value);  } },
        (WidgetKind::Icon, WidgetKind::Icon) => {  },
        (WidgetKind::Button { action: x_action, children: x_children }, WidgetKind::Button { action: y_action, children: y_children }) => { if (x_action.remap_check(m)) is Err { x_action.lemma_walk_keeps(m, y_action); lemma_widgets_same_refl(x_children@, m); } else { x_action.lemma_identity(m, y_action); if (widgets_check(x_children@, m)) is Err { lemma_widgets_walk_keeps(x_children@, m, y_children@); } else { lemma_widgets_identity(x_children@, m, y_children@);  } } },
        (WidgetKind::AbilitySlot { slot: x_slot, key_hint: x_key_hint }, WidgetKind::AbilitySlot { slot: y_slot, key_hint: y_key_hint }) => {  },
        (WidgetKind::TalentIcon { tier: x_tier, option: x_option }, WidgetKind::TalentIcon { tier: y_tier, option: y_option }) => {  },
        _ => {},
    }
}

proof fn lemma_widget_kind_same_refl<M: IdMap>(x: WidgetKind, m: &M)
    ensures
        widget_kind_same(x, x),
    decreases x,
{
    match x {
        WidgetKind::Panel { children: x_children } => { lemma_widgets_same_refl(x_children@, m); },
        WidgetKind::Text { text: x_text } => { x_text.lemma_same_refl(m); },
        WidgetKind::Bar { value: x_value } => { x_value.lemma_same_refl(m); },
        WidgetKind::Icon => {  },
        WidgetKind::Button { action: x_action, children: x_children } => { x_action.lemma_same_refl(m); lemma_widgets_same_refl(x_children@, m); },
        WidgetKind::AbilitySlot { slot: x_slot, key_hint: x_key_hint } => {  },
        WidgetKind::TalentIcon { tier: x_tier, option: x_option } => {  },
    }
}

proof fn lemma_widget_kind_lands<M1: IdMap, M2: IdMap>(x: WidgetKind, m1: &M1, m2: &M2, a: WidgetKind)
    requires
        lands_in(m1, m2),
        widget_kind_remaps(x, m1, a),
    ensures
        widget_kind_check(a, m2) is Ok,
    decreases x,
{
    match (x, a) {
        (WidgetKind::Panel { children: x_children }, WidgetKind::Panel { children: a_children }) => { lemma_widgets_lands(x_children@, m1, m2, a_children@); },
        (WidgetKind::Text { text: x_text }, WidgetKind::Text { text: a_text }) => { x_text.lemma_lands(m1, m2, a_text); },
        (WidgetKind::Bar { value: x_value }, WidgetKind::Bar { value: a_value }) => { x_value.lemma_lands(m1, m2, a_value); },
        (WidgetKind::Icon, WidgetKind::Icon) => {  },
        (WidgetKind::Button { action: x_action, children: x_children }, WidgetKind::Button { action: a_action, children: a_children }) => { x_action.lemma_lands(m1, m2, a_action); lemma_widgets_lands(x_children@, m1, m2, a_children@); },
        (WidgetKind::AbilitySlot { slot: x_slot, key_hint: x_key_hint }, WidgetKind::AbilitySlot { slot: a_slot, key_hint: a_key_hint }) => {  },
        (WidgetKind::TalentIcon { tier: x_tier, option: x_option }, WidgetKind::TalentIcon { tier: a_tier, option: a_option }) => {  },
        _ => {},
    }
}

proof fn lemma_widget_kind_fixed<M1: IdMap, M2: IdMap>(x: WidgetKind, m1: &M1, m2: &M2, a: WidgetKind, b: WidgetKind)
    requires
        fixes_outputs(m1, m2),
        widget_kind_remaps(x, m1, a),
        widget_kind_remaps(a, m2, b),
    ensures
        widget_kind_same(a, b),
    decreases x,
{
    match (x, a, b) {
        (WidgetKind::Panel { children: x_children }, WidgetKind::Panel { children: a_children }, WidgetKind::Panel { children: b_children }) => { lemma_widgets_fixed(x_children@, m1, m2, a_children@, b_children@); },
        (WidgetKind::Text { text: x_text }, WidgetKind::Text { text: a_text }, WidgetKind::Text { text: b_text }) => { x_text.lemma_fixed(m1, m2, a_text, b_text); },
        (WidgetKind::Bar { value: x_value }, WidgetKind::Bar { value: a_value }, WidgetKind::Bar { value: b_value }) => { x_value.lemma_fixed(m1, m2, a_value, b_value); },
        (WidgetKind::Icon, WidgetKind::Icon, WidgetKind::Icon) => {  },
        (WidgetKind::Button { action: x_action, children: x_children }, WidgetKind::Button { action: a_action, children: a_children }, WidgetKind::Button { action: b_action, children: b_children }) => { x_action.lemma_fixed(m1, m2, a_action, b_action); lemma_widgets_fixed(x_children@, m1, m2, a_children@, b_children@); },
        (WidgetKind::AbilitySlot { slot: x_slot, key_hint: x_key_hint }, WidgetKind::AbilitySlot { slot: a_slot, key_hint: a_key_hint }, WidgetKind::AbilitySlot { slot: b_slot, key_hint: b_key_hint }) => {  },
        (WidgetKind::TalentIcon { tier: x_tier, option: x_option }, WidgetKind::TalentIcon { tier: a_tier, option: a_option }, WidgetKind::TalentIcon { tier: b_tier, option: b_option }) => {  },
        _ => {},
    }
}

proof fn lemma_widget_kind_compose<M1: IdMap, M2: IdMap, M12: IdMap>(x: WidgetKind, m1: &M1, m2: &M2, m12: &M12, a: WidgetKind, b: WidgetKind)
    requires
        composes(m1, m2, m12),
        widget_kind_remaps(x, m1, a),
        widget_kind_remaps(a, m2, b),
    ensures
        widget_kind_remaps(x, m12, b),
    decreases x,
{
    match (x, a, b) {
        (WidgetKind::Panel { children: x_children }, WidgetKind::Panel { children: a_children }, WidgetKind::Panel { children: b_children }) => { lemma_widgets_compose(x_children@, m1, m2, m12, a_children@, b_children@); },
        (WidgetKind::Text { text: x_text }, WidgetKind::Text { text: a_text }, WidgetKind::Text { text: b_text }) => { x_text.lemma_compose(m1, m2, m12, a_text, b_text); },
        (WidgetKind::Bar { value: x_value }, WidgetKind::Bar { value: a_value }, WidgetKind::Bar { value: b_value }) => { x_value.lemma_compose(m1, m2, m12, a_value, b_value); },
        (WidgetKind::Icon, WidgetKind::Icon, WidgetKind::Icon) => {  },
        (WidgetKind::Button { action: x_action, children: x_children }, WidgetKind::Button { action: a_action, children: a_children }, WidgetKind::Button { action: b_action, children: b_children }) => { x_action.lemma_compose(m1, m2, m12, a_action, b_action); lemma_widgets_compose(x_children@, m1, m2, m12, a_children@, b_children@); },
        (WidgetKind::AbilitySlot { slot: x_slot, key_hint: x_key_hint }, WidgetKind::AbilitySlot { slot: a_slot, key_hint: a_key_hint }, WidgetKind::AbilitySlot { slot: b_slot, key_hint: b_key_hint }) => {  },
        (WidgetKind::TalentIcon { tier: x_tier, option: x_option }, WidgetKind::TalentIcon { tier: a_tier, option: a_option }, WidgetKind::TalentIcon { tier: b_tier, option: b_option }) => {  },
        _ => {},
    }
}

impl Contents for WidgetKind {
    open spec fn same_as(&self, other: Self) -> bool {
        widget_kind_same(*self, other)
    }
}

impl<M: IdMap> RemapIds<M> for WidgetKind {
    open spec fn remap_check(&self, m: &M) -> Result<(), M::Error> {
        widget_kind_check(*self, m)
    }

    open spec fn remaps_to(&self, m: &M, new: Self) -> bool {
        widget_kind_remaps(*self, m, new)
    }

    open spec fn walked_to(&self, m: &M, new: Self) -> bool {
        widget_kind_walked(*self, m, new)
    }

    fn remap_ids(&mut self, m: &M) -> (r: Result<(), M::Error>) {
        remap_widget_kind(self, m)
    }

    proof fn lemma_total(&self, m: &M) {
        lemma_widget_kind_total(*self, m);
    }

    proof fn lemma_identity(&self, m: &M, new: Self) {
        lemma_widget_kind_identity(*self, m, new);
    }

    proof fn lemma_stable(&self, m: &M, a: Self, b: Self) {
        lemma_widget_kind_stable(*self, m, a, b);
    }

    proof fn lemma_walk_keeps(&self, m: &M, new: Self) {
        lemma_widget_kind_walk_keeps(*self, m, new);
    }

    proof fn lemma_same_refl(&self, m: &M) {
        lemma_widget_kind_same_refl(*self, m);
    }
}

impl<M1: IdMap, M2: IdMap> RemapPair<M1, M2> for WidgetKind {
    proof fn lemma_lands(&self, m1: &M1, m2: &M2, a: Self) {
        lemma_widget_kind_lands(*self, m1, m2, a);
    }

    proof fn lemma_fixed(&self, m1: &M1, m2: &M2, a: Self, b: Self) {
        lemma_widget_kind_fixed(*self, m1, m2, a, b);
    }
}

impl<M1: IdMap, M2: IdMap, M12: IdMap> RemapCompose<M1, M2, M12> for WidgetKind {
    proof fn lemma_compose(&self, m1: &M1, m2: &M2, m12: &M12, a: Self, b: Self) {
        lemma_widget_kind_compose(*self, m1, m2, m12, a, b);
    }
}

/// The first error the walk over a `Widget` meets, in walk order.
pub open spec fn widget_check<M: IdMap>(x: Widget, m: &M) -> Result<(), M::Error>
    decreases x,
{
    then(widget_kind_check(x.kind, m), Ok(()))
}

/// Whether `y` is `x` with every interned handle translated through `m`.
pub open spec fn widget_remaps<M: IdMap>(x: Widget, m: &M, y: Widget) -> bool
    decreases x,
{
    x.name == y.name
            && x.layout == y.layout
            && x.style == y.style
            && widget_kind_remaps(x.kind, m, y.kind)
}

/// Whether `x` and `y` hold the same contents.
pub open spec fn widget_same(x: Widget, y: Widget) -> bool
    decreases x,
{
    x.name@ == y.name@
            && x.layout == y.layout
            && style_same(x.style, y.style)
            && widget_kind_same(x.kind, y.kind)
}

/// Whether `y` is `x` after a walk through `m` that stopped at its first
/// error: what it passed translated, the part that failed walked likewise,
/// the rest untouched.
pub open spec fn widget_walked<M: IdMap>(x: Widget, m: &M, y: Widget) -> bool
    decreases x,
{
    x.name == y.name && x.layout == y.layout && x.style == y.style && (if (widget_kind_check(x.kind, m)) is Err { widget_kind_walked(x.kind, m, y.kind) } else { widget_kind_remaps(x.kind, m, y.kind) && true })
}

/// Translate every interned handle inside `x` through `m`, stopping at the
/// map's first error.
#[verifier::rlimit(60)]
#[verifier::spinoff_prover]
pub fn remap_widget<M: IdMap>(x: &mut Widget, m: &M) -> (r: Result<(), M::Error>)
    ensures
        r == widget_check(*old(x), m),
        r is Ok ==> widget_remaps(*old(x), m, *final(x)),
        r is Err ==> widget_walked(*old(x), m, *final(x)),
    decreases *old(x),
{
    let r = remap_widget_kind(&mut x.kind, m);
    if r.is_err() {
        return r;
    }
    Ok(())
}

proof fn lemma_widget_total<M: IdMap>(x: Widget, m: &M)
    requires
        total(m),
    ensures
        widget_check(x, m) is Ok,
    decreases x,
{
    lemma_widget_kind_total(x.kind, m);
}

proof fn lemma_widget_identity<M: IdMap>(x: Widget, m: &M, y: Widget)
    requires
        keeps_ids(m),
        widget_remaps(x, m, y),
    ensures
        widget_same(x, y),
    decreases x,
{
    lemma_widget_kind_identity(x.kind, m, y.kind);
}

proof fn lemma_widget_stable<M: IdMap>(x: Widget, m: &M, a: Widget, b: Widget)
    requires
        settles(m),
        widget_remaps(x, m, a),
        widget_remaps(a, m, b),
    ensures
        widget_same(a, b),
    decreases x,
{
    lemma_widget_kind_stable(x.kind, m, a.kind, b.kind);
}

#[verifier::rlimit(60)]
#[verifier::spinoff_prover]
proof fn lemma_widget_walk_keeps<M: IdMap>(x: Widget, m: &M, y: Widget)
    requires
        keeps_ids(m),
        widget_walked(x, m, y),
    ensures
        widget_same(x, y),
    decreases x,
{
    if (widget_kind_check(x.kind, m)) is Err { lemma_widget_kind_walk_keeps(x.kind, m, y.kind); } else { lemma_widget_kind_identity(x.kind, m, y.kind);  }
}

proof fn lemma_widget_same_refl<M: IdMap>(x: Widget, m: &M)
    ensures
        widget_same(x, x),
    decreases x,
{
    lemma_widget_kind_same_refl(x.kind, m);
}

proof fn lemma_widget_lands<M1: IdMap, M2: IdMap>(x: Widget, m1: &M1, m2: &M2, a: Widget)
    requires
        lands_in(m1, m2),
        widget_remaps(x, m1, a),
    ensures
        widget_check(a, m2) is Ok,
    decreases x,
{
    lemma_widget_kind_lands(x.kind, m1, m2, a.kind);
}

proof fn lemma_widget_fixed<M1: IdMap, M2: IdMap>(x: Widget, m1: &M1, m2: &M2, a: Widget, b: Widget)
    requires
        fixes_outputs(m1, m2),
        widget_remaps(x, m1, a),
        widget_remaps(a, m2, b),
    ensures
        widget_same(a, b),
    decreases x,
{
    lemma_widget_kind_fixed(x.kind, m1, m2, a.kind, b.kind);
}

proof fn lemma_widget_compose<M1: IdMap, M2: IdMap, M12: IdMap>(x: Widget, m1: &M1, m2: &M2, m12: &M12, a: Widget, b: Widget)
    requires
        composes(m1, m2, m12),
        widget_remaps(x, m1, a),
        widget_remaps(a, m2, b),
    ensures
        widget_remaps(x, m12, b),
    decreases x,
{
    lemma_widget_kind_compose(x.kind, m1, m2, m12, a.kind, b.kind);
}

impl Contents for Widget {
    open spec fn same_as(&self, other: Self) -> bool {
        widget_same(*self, other)
    }
}

impl<M: IdMap> RemapIds<M> for Widget {
    open spec fn remap_check(&self, m: &M) -> Result<(), M::Error> {
        widget_check(*self, m)
    }

    open spec fn remaps_to(&self, m: &M, new: Self) -> bool {
        widget_remaps(*self, m, new)
    }

    open spec fn walked_to(&self, m: &M, new: Self) -> bool {
        widget_walked(*self, m, new)
    }

    fn remap_ids(&mut self, m: &M) -> (r: Result<(), M::Error>) {
        remap_widget(self, m)
    }

    proof fn lemma_total(&self, m: &M) {
        lemma_widget_total(*self, m);
    }

    proof fn lemma_identity(&self, m: &M, new: Self) {
        lemma_widget_identity(*self, m, new);
    }

    proof fn lemma_stable(&self, m: &M, a: Self, b: Self) {
        lemma_widget_stable(*self, m, a, b);
    }

    proof fn lemma_walk_keeps(&self, m: &M, new: Self) {
        lemma_widget_walk_keeps(*self, m, new);
    }

    proof fn lemma_same_refl(&self, m: &M) {
        lemma_widget_same_refl(*self, m);
    }
}

impl<M1: IdMap, M2: IdMap> RemapPair<M1, M2> for Widget {
    proof fn lemma_lands(&self, m1: &M1, m2: &M2, a: Self) {
        lemma_widget_lands(*self, m1, m2, a);
    }

    proof fn lemma_fixed(&self, m1: &M1, m2: &M2, a: Self, b: Self) {
        lemma_widget_fixed(*self, m1, m2, a, b);
    }
}

impl<M1: IdMap, M2: IdMap, M12: IdMap> RemapCompose<M1, M2, M12> for Widget {
    proof fn lemma_compose(&self, m1: &M1, m2: &M2, m12: &M12, a: Self, b: Self) {
        lemma_widget_compose(*self, m1, m2, m12, a, b);
    }
}

/// The first error the walk over a `BodyDescriptor` meets, in walk order.
pub open spec fn body_check<M: IdMap>(x: BodyDescriptor, m: &M) -> Result<(), M::Error>
    decreases x,
{
    then(x.kind.remap_check(m), then(impacts_check(x.on_spawn@, m), then(impacts_check(x.on_hit@, m), then(impacts_check(x.on_expire@, m), then(x.collision.remap_check(m), x.height.remap_check(m))))))
}

/// Whether `y` is `x` with every interned handle translated through `m`.
pub open spec fn body_remaps<M: IdMap>(x: BodyDescriptor, m: &M, y: BodyDescriptor) -> bool
    decreases x,
{
    x.kind.remaps_to(m, y.kind)
            && impacts_remaps(x.on_spawn@, m, y.on_spawn@)
            && impacts_remaps(x.on_hit@, m, y.on_hit@)
            && impacts_remaps(x.on_expire@, m, y.on_expire@)
            && x.collision.remaps_to(m, y.collision)
            && x.flags == y.flags
            && x.height.remaps_to(m, y.height)
}

/// Whether `x` and `y` hold the same contents.
pub open spec fn body_same(x: BodyDescriptor, y: BodyDescriptor) -> bool
    decreases x,
{
    x.kind.same_as(y.kind)
            && impacts_same(x.on_spawn@, y.on_spawn@)
            && impacts_same(x.on_hit@, y.on_hit@)
            && impacts_same(x.on_expire@, y.on_expire@)
            && x.collision.same_as(y.collision)
            && x.flags == y.flags
            && x.height.same_as(y.height)
}

/// Whether `y` is `x` after a walk through `m` that stopped at its first
/// error: what it passed translated, the part that failed walked likewise,
/// the rest untouched.
pub open spec fn body_walked<M: IdMap>(x: BodyDescriptor, m: &M, y: BodyDescriptor) -> bool
    decreases x,
{
    x.flags == y.flags && (if (x.kind.remap_check(m)) is Err { x.kind.walked_to(m, y.kind) && x.on_spawn == y.on_spawn && x.on_hit == y.on_hit && x.on_expire == y.on_expire && x.collision == y.collision && x.height == y.height } else { x.kind.remaps_to(m, y.kind) && (if (impacts_check(x.on_spawn@, m)) is Err { impacts_walked(x.on_spawn@, m, y.on_spawn@) && x.on_hit == y.on_hit && x.on_expire == y.on_expire && x.collision == y.collision && x.height == y.height } else { impacts_remaps(x.on_spawn@, m, y.on_spawn@) && (if (impacts_check(x.on_hit@, m)) is Err { impacts_walked(x.on_hit@, m, y.on_hit@) && x.on_expire == y.on_expire && x.collision == y.collision && x.height == y.height } else { impacts_remaps(x.on_hit@, m, y.on_hit@) && (if (impacts_check(x.on_expire@, m)) is Err { impacts_walked(x.on_expire@, m, y.on_expire@) && x.collision == y.collision && x.height == y.height } else { impacts_remaps(x.on_expire@, m, y.on_expire@) && (if (x.collision.remap_check(m)) is Err { x.collision.walked_to(m, y.collision) && x.height == y.height } else { x.collision.remaps_to(m, y.collision) && (if (x.height.remap_check(m)) is Err { x.height.walked_to(m, y.height) } else { x.height.remaps_to(m, y.height) && true }) }) }) }) }) })
}

/// Translate every interned handle inside `x` through `m`, stopping at the
/// map's first error.
#[verifier::rlimit(60)]
#[verifier::spinoff_prover]
pub fn remap_body<M: IdMap>(x: &mut BodyDescriptor, m: &M) -> (r: Result<(), M::Error>)
    ensures
        r == body_check(*old(x), m),
        r is Ok ==> body_remaps(*old(x), m, *final(x)),
        r is Err ==> body_walked(*old(x), m, *final(x)),
    decreases *old(x),
{
    let r = x.kind.remap_ids(m);
    if r.is_err() {
        return r;
    }
    let r = remap_impacts(&mut x.on_spawn, m);
    if r.is_err() {
        return r;
    }
    let r = remap_impacts(&mut x.on_hit, m);
    if r.is_err() {
        return r;
    }
    let r = remap_impacts(&mut x.on_expire, m);
    if r.is_err() {
        return r;
    }
    let r = x.collision.remap_ids(m);
    if r.is_err() {
        return r;
    }
    let r = x.height.remap_ids(m);
    if r.is_err() {
        return r;
    }
    Ok(())
}

proof fn lemma_body_total<M: IdMap>(x: BodyDescriptor, m: &M)
    requires
        total(m),
    ensures
        body_check(x, m) is Ok,
    decreases x,
{
    x.kind.lemma_total(m);
    lemma_impacts_total(x.on_spawn@, m);
    lemma_impacts_total(x.on_hit@, m);
    lemma_impacts_total(x.on_expire@, m);
    x.collision.lemma_total(m);
    x.height.lemma_total(m);
}

proof fn lemma_body_identity<M: IdMap>(x: BodyDescriptor, m: &M, y: BodyDescriptor)
    requires
        keeps_ids(m),
        body_remaps(x, m, y),
    ensures
        body_same(x, y),
    decreases x,
{
    x.kind.lemma_identity(m, y.kind);
    lemma_impacts_identity(x.on_spawn@, m, y.on_spawn@);
    lemma_impacts_identity(x.on_hit@, m, y.on_hit@);
    lemma_impacts_identity(x.on_expire@, m, y.on_expire@);
    x.collision.lemma_identity(m, y.collision);
    x.height.lemma_identity(m, y.height);
}

proof fn lemma_body_stable<M: IdMap>(x: BodyDescriptor, m: &M, a: BodyDescriptor, b: BodyDescriptor)
    requires
        settles(m),
        body_remaps(x, m, a),
        body_remaps(a, m, b),
    ensures
        body_same(a, b),
    decreases x,
{
    x.kind.lemma_stable(m, a.kind, b.kind);
    lemma_impacts_stable(x.on_spawn@, m, a.on_spawn@, b.on_spawn@);
    lemma_impacts_stable(x.on_hit@, m, a.on_hit@, b.on_hit@);
    lemma_impacts_stable(x.on_expire@, m, a.on_expire@, b.on_expire@);
    x.collision.lemma_stable(m, a.collision, b.collision);
    x.height.lemma_stable(m, a.height, b.height);
}

#[verifier::rlimit(60)]
#[verifier::spinoff_prover]
proof fn lemma_body_walk_keeps<M: IdMap>(x: BodyDescriptor, m: &M, y: BodyDescriptor)
    requires
        keeps_ids(m),
        body_walked(x, m, y),
    ensures
        body_same(x, y),
    decreases x,
{
    if (x.kind.remap_check(m)) is Err { x.kind.lemma_walk_keeps(m, y.kind); lemma_impacts_same_refl(x.on_spawn@, m); lemma_impacts_same_refl(x.on_hit@, m); lemma_impacts_same_refl(x.on_expire@, m); x.collision.lemma_same_refl(m); x.height.lemma_same_refl(m); } else { x.kind.lemma_identity(m, y.kind); if (impacts_check(x.on_spawn@, m)) is Err { lemma_impacts_walk_keeps(x.on_spawn@, m, y.on_spawn@); lemma_impacts_same_refl(x.on_hit@, m); lemma_impacts_same_refl(x.on_expire@, m); x.collision.lemma_same_refl(m); x.height.lemma_same_refl(m); } else { lemma_impacts_identity(x.on_spawn@, m, y.on_spawn@); if (impacts_check(x.on_hit@, m)) is Err { lemma_impacts_walk_keeps(x.on_hit@, m, y.on_hit@); lemma_impacts_same_refl(x.on_expire@, m); x.collision.lemma_same_refl(m); x.height.lemma_same_refl(m); } else { lemma_impacts_identity(x.on_hit@, m, y.on_hit@); if (impacts_check(x.on_expire@, m)) is Err { lemma_impacts_walk_keeps(x.on_expire@, m, y.on_expire@); x.collision.lemma_same_refl(m); x.height.lemma_same_refl(m); } else { lemma_impacts_identity(x.on_expire@, m, y.on_expire@); if (x.collision.remap_check(m)) is Err { x.collision.lemma_walk_keeps(m, y.collision); x.height.lemma_same_refl(m); } else { x.collision.lemma_identity(m, y.collision); if (x.height.remap_check(m)) is Err { x.height.lemma_walk_keeps(m, y.height); } else { x.height.lemma_identity(m, y.height);  } } } } } }
}

proof fn lemma_body_same_refl<M: IdMap>(x: BodyDescriptor, m: &M)
    ensures
        body_same(x, x),
    decreases x,
{
    x.kind.lemma_same_refl(m); lemma_impacts_same_refl(x.on_spawn@, m); lemma_impacts_same_refl(x.on_hit@, m); lemma_impacts_same_refl(x.on_expire@, m); x.collision.lemma_same_refl(m); x.height.lemma_same_refl(m);
}

proof fn lemma_body_lands<M1: IdMap, M2: IdMap>(x: BodyDescriptor, m1: &M1, m2: &M2, a: BodyDescriptor)
    requires
        lands_in(m1, m2),
        body_remaps(x, m1, a),
    ensures
        body_check(a, m2) is Ok,
    decreases x,
{
    x.kind.lemma_lands(m1, m2, a.kind);
    lemma_impacts_lands(x.on_spawn@, m1, m2, a.on_spawn@);
    lemma_impacts_lands(x.on_hit@, m1, m2, a.on_hit@);
    lemma_impacts_lands(x.on_expire@, m1, m2, a.on_expire@);
    x.collision.lemma_lands(m1, m2, a.collision);
    x.height.lemma_lands(m1, m2, a.height);
}

proof fn lemma_body_fixed<M1: IdMap, M2: IdMap>(x: BodyDescriptor, m1: &M1, m2: &M2, a: BodyDescriptor, b: BodyDescriptor)
    requires
        fixes_outputs(m1, m2),
        body_remaps(x, m1, a),
        body_remaps(a, m2, b),
    ensures
        body_same(a, b),
    decreases x,
{
    x.kind.lemma_fixed(m1, m2, a.kind, b.kind);
    lemma_impacts_fixed(x.on_spawn@, m1, m2, a.on_spawn@, b.on_spawn@);
    lemma_impacts_fixed(x.on_hit@, m1, m2, a.on_hit@, b.on_hit@);
    lemma_impacts_fixed(x.on_expire@, m1, m2, a.on_expire@, b.on_expire@);
    x.collision.lemma_fixed(m1, m2, a.collision, b.collision);
    x.height.lemma_fixed(m1, m2, a.height, b.height);
}

proof fn lemma_body_compose<M1: IdMap, M2: IdMap, M12: IdMap>(x: BodyDescriptor, m1: &M1, m2: &M2, m12: &M12, a: BodyDescriptor, b: BodyDescriptor)
    requires
        composes(m1, m2, m12),
        body_remaps(x, m1, a),
        body_remaps(a, m2, b),
    ensures
        body_remaps(x, m12, b),
    decreases x,
{
    x.kind.lemma_compose(m1, m2, m12, a.kind, b.kind);
    lemma_impacts_compose(x.on_spawn@, m1, m2, m12, a.on_spawn@, b.on_spawn@);
    lemma_impacts_compose(x.on_hit@, m1, m2, m12, a.on_hit@, b.on_hit@);
    lemma_impacts_compose(x.on_expire@, m1, m2, m12, a.on_expire@, b.on_expire@);
    x.collision.lemma_compose(m1, m2, m12, a.collision, b.collision);
    x.height.lemma_compose(m1, m2, m12, a.height, b.height);
}

impl Contents for BodyDescriptor {
    open spec fn same_as(&self, other: Self) -> bool {
        body_same(*self, other)
    }
}

impl<M: IdMap> RemapIds<M> for BodyDescriptor {
    open spec fn remap_check(&self, m: &M) -> Result<(), M::Error> {
        body_check(*self, m)
    }

    open spec fn remaps_to(&self, m: &M, new: Self) -> bool {
        body_remaps(*self, m, new)
    }

    open spec fn walked_to(&self, m: &M, new: Self) -> bool {
        body_walked(*self, m, new)
    }

    fn remap_ids(&mut self, m: &M) -> (r: Result<(), M::Error>) {
        remap_body(self, m)
    }

    proof fn lemma_total(&self, m: &M) {
        lemma_body_total(*self, m);
    }

    proof fn lemma_identity(&self, m: &M, new: Self) {
        lemma_body_identity(*self, m, new);
    }

    proof fn lemma_stable(&self, m: &M, a: Self, b: Self) {
        lemma_body_stable(*self, m, a, b);
    }

    proof fn lemma_walk_keeps(&self, m: &M, new: Self) {
        lemma_body_walk_keeps(*self, m, new);
    }

    proof fn lemma_same_refl(&self, m: &M) {
        lemma_body_same_refl(*self, m);
    }
}

impl<M1: IdMap, M2: IdMap> RemapPair<M1, M2> for BodyDescriptor {
    proof fn lemma_lands(&self, m1: &M1, m2: &M2, a: Self) {
        lemma_body_lands(*self, m1, m2, a);
    }

    proof fn lemma_fixed(&self, m1: &M1, m2: &M2, a: Self, b: Self) {
        lemma_body_fixed(*self, m1, m2, a, b);
    }
}

impl<M1: IdMap, M2: IdMap, M12: IdMap> RemapCompose<M1, M2, M12> for BodyDescriptor {
    proof fn lemma_compose(&self, m1: &M1, m2: &M2, m12: &M12, a: Self, b: Self) {
        lemma_body_compose(*self, m1, m2, m12, a, b);
    }
}

/// The first error the walk over a sequence of `TagId` meets, in order.
pub open spec fn tags_check<M: IdMap>(s: Seq<TagId>, m: &M) -> Result<(), M::Error>
    decreases s.len(),
{
    if s.len() == 0 {
        Ok(())
    } else {
        then(tags_check(s.drop_last(), m), tag_check(s.last(), m))
    }
}

/// Whether `t` is `s` with every interned handle translated through `m`.
pub open spec fn tags_remaps<M: IdMap>(s: Seq<TagId>, m: &M, t: Seq<TagId>) -> bool
{
    s.len() == t.len() && forall|i: int| 0 <= i < s.len() ==> tag_remaps(#[trigger] s[i], m, t[i])
}

/// Whether `s` and `t` hold the same contents.
pub open spec fn tags_same(s: Seq<TagId>, t: Seq<TagId>) -> bool
{
    s.len() == t.len() && forall|i: int| 0 <= i < s.len() ==> tag_same(#[trigger] s[i], t[i])
}

/// Whether `t` is `s` after a walk through `m` that stopped at its first
/// error: the elements before the one that failed translated, that one walked
/// likewise, the ones after untouched.
pub open spec fn tags_walked<M: IdMap>(s: Seq<TagId>, m: &M, t: Seq<TagId>) -> bool
{
    s.len() == t.len() && forall|i: int|
        #![trigger s[i]]
        0 <= i < s.len() ==> {
            &&& (tags_check(s.take(i), m) is Ok && tag_check(s[i], m) is Ok) ==> tag_remaps(s[i], m, t[i])
            &&& (tags_check(s.take(i), m) is Ok && tag_check(s[i], m) is Err) ==> tag_walked(s[i], m, t[i])
            &&& tags_check(s.take(i), m) is Err ==> t[i] == s[i]
        }
}

/// Once a prefix of the walk passes, every shorter prefix and every element
/// in it passes.
proof fn lemma_tags_prefix_ok<M: IdMap>(s: Seq<TagId>, m: &M, i: int, j: int)
    requires
        0 <= j < i <= s.len(),
        tags_check(s.take(i), m) is Ok,
    ensures
        tags_check(s.take(j), m) is Ok,
        tag_check(s[j], m) is Ok,
{
    if tags_check(s.take(j + 1), m) is Err {
        assert(s.take(i).take(j + 1) =~= s.take(j + 1));
        lemma_tags_err(s.take(i), m, j + 1);
    }
    assert(s.take(j + 1).drop_last() =~= s.take(j));
    assert(s.take(j + 1).last() == s[j]);
}

/// A walk that stopped at element `i`: translated before it, `i` walked, the
/// rest untouched.
proof fn lemma_tags_walked_at<M: IdMap>(s: Seq<TagId>, m: &M, i: int, t: Seq<TagId>)
    requires
        0 <= i < s.len(),
        t.len() == s.len(),
        tags_check(s.take(i), m) is Ok,
        tag_check(s[i], m) is Err,
        forall|j: int| 0 <= j < i ==> tag_remaps(#[trigger] s[j], m, t[j]),
        tag_walked(s[i], m, t[i]),
        forall|j: int| i < j < s.len() ==> #[trigger] t[j] == s[j],
    ensures
        tags_walked(s, m, t),
{
    lemma_tags_err_after(s, m, i);
    assert forall|j: int| 0 <= j < s.len() implies {
        &&& (tags_check(s.take(j), m) is Ok && tag_check(#[trigger] s[j], m) is Ok) ==> tag_remaps(s[j], m, t[j])
        &&& (tags_check(s.take(j), m) is Ok && tag_check(s[j], m) is Err) ==> tag_walked(s[j], m, t[j])
        &&& tags_check(s.take(j), m) is Err ==> t[j] == s[j]
    } by {
        if j < i {
            lemma_tags_prefix_ok(s, m, i, j);
        } else if j > i {
            assert(tags_check(s.take(j), m) is Err);
        }
    }
}

proof fn lemma_tags_err_after<M: IdMap>(s: Seq<TagId>, m: &M, i: int)
    requires
        0 <= i < s.len(),
        tags_check(s.take(i), m) is Ok,
        tag_check(s[i], m) is Err,
    ensures
        forall|j: int| i < j <= s.len() ==> #[trigger] tags_check(s.take(j), m) is Err,
{
    assert(s.take(i + 1).drop_last() =~= s.take(i));
    assert forall|j: int| i < j <= s.len() implies #[trigger] tags_check(s.take(j), m) is Err by {
        assert(s.take(j).take(i + 1) =~= s.take(i + 1));
        lemma_tags_err(s.take(j), m, i + 1);
    }
}

proof fn lemma_tags_prefix<M: IdMap>(s: Seq<TagId>, m: &M, i: int)
    requires
        0 <= i < s.len(),
        tags_check(s.take(i), m) is Ok,
    ensures
        tags_check(s.take(i + 1), m) == then(tags_check(s.take(i), m), tag_check(s[i], m)),
{
    assert(s.take(i + 1).drop_last() =~= s.take(i));
}

proof fn lemma_tags_err<M: IdMap>(s: Seq<TagId>, m: &M, k: int)
    requires
        0 <= k <= s.len(),
        tags_check(s.take(k), m) is Err,
    ensures
        tags_check(s, m) == tags_check(s.take(k), m),
    decreases s.len() - k,
{
    if k < s.len() {
        assert(s.take(k + 1).drop_last() =~= s.take(k));
        lemma_tags_err(s, m, k + 1);
    } else {
        assert(s.take(k) =~= s);
    }
}

/// Translate every interned handle in every element of `v` through `m`, in
/// order, stopping at the map's first error.
#[verifier::rlimit(40)]
pub fn remap_tags<M: IdMap>(v: &mut Vec<TagId>, m: &M) -> (r: Result<(), M::Error>)
    ensures
        r == tags_check(old(v)@, m),
        r is Ok ==> tags_remaps(old(v)@, m, final(v)@),
        r is Err ==> tags_walked(old(v)@, m, final(v)@),
{
    let ghost orig = *v;
    let n = v.len();
    let mut i: usize = 0;
    assert(orig@.take(0) =~= Seq::<TagId>::empty());
    while i < n
        invariant
            orig == *old(v),
            n == v@.len(),
            v@.len() == orig@.len(),
            i <= n,
            tags_check(orig@.take(i as int), m) is Ok,
            forall|j: int| i <= j < n ==> v@[j] == orig@[j],
            forall|j: int| 0 <= j < i ==> tag_remaps(#[trigger] orig@[j], m, v@[j]),
        decreases n - i,
    {
        proof {
            lemma_tags_prefix(orig@, m, i as int);
        }
        let r = remap_tag(&mut v[i], m);
        if r.is_err() {
            proof {
                lemma_tags_err(orig@, m, i + 1);
                lemma_tags_walked_at(orig@, m, i as int, v@);
            }
            return r;
        }
        i = i + 1;
    }
    proof {
        assert(orig@.take(n as int) =~= orig@);
        lemma_unit_ok(tags_check(orig@, m));
    }
    Ok(())
}

proof fn lemma_tags_total<M: IdMap>(s: Seq<TagId>, m: &M)
    requires
        total(m),
    ensures
        tags_check(s, m) is Ok,
    decreases s.len(),
{
    if s.len() > 0 {
        lemma_tags_total(s.drop_last(), m);
        lemma_tag_total(s.last(), m);
    }
}

proof fn lemma_tags_identity<M: IdMap>(s: Seq<TagId>, m: &M, t: Seq<TagId>)
    requires
        keeps_ids(m),
        tags_remaps(s, m, t),
    ensures
        tags_same(s, t),
{
    assert forall|i: int| 0 <= i < s.len() implies tag_same(#[trigger] s[i], t[i]) by {
        lemma_tag_identity(s[i], m, t[i]);
    }
}

proof fn lemma_tags_walk_keeps<M: IdMap>(s: Seq<TagId>, m: &M, t: Seq<TagId>)
    requires
        keeps_ids(m),
        tags_walked(s, m, t),
    ensures
        tags_same(s, t),
{
    assert forall|i: int| 0 <= i < s.len() implies tag_same(#[trigger] s[i], t[i]) by {
        if tags_check(s.take(i), m) is Ok {
            if tag_check(s[i], m) is Ok {
                lemma_tag_identity(s[i], m, t[i]);
            } else {
                lemma_tag_walk_keeps(s[i], m, t[i]);
            }
        } else {
            lemma_tag_same_refl(s[i], m);
        }
    }
}

proof fn lemma_tags_same_refl<M: IdMap>(s: Seq<TagId>, m: &M)
    ensures
        tags_same(s, s),
{
    assert forall|i: int| 0 <= i < s.len() implies tag_same(#[trigger] s[i], s[i]) by {
        lemma_tag_same_refl(s[i], m);
    }
}

proof fn lemma_tags_ok_of_all<M: IdMap>(t: Seq<TagId>, m: &M)
    requires
        forall|i: int| 0 <= i < t.len() ==> #[trigger] tag_check(t[i], m) is Ok,
    ensures
        tags_check(t, m) is Ok,
    decreases t.len(),
{
    if t.len() > 0 {
        assert forall|i: int| 0 <= i < t.drop_last().len() implies #[trigger] tag_check(t.drop_last()[i], m) is Ok by {
            assert(t.drop_last()[i] == t[i]);
        }
        lemma_tags_ok_of_all(t.drop_last(), m);
        assert(tag_check(t[t.len() - 1], m) is Ok);
    }
}

proof fn lemma_tags_lands<M1: IdMap, M2: IdMap>(s: Seq<TagId>, m1: &M1, m2: &M2, t: Seq<TagId>)
    requires
        lands_in(m1, m2),
        tags_remaps(s, m1, t),
    ensures
        tags_check(t, m2) is Ok,
{
    assert forall|i: int| 0 <= i < t.len() implies #[trigger] tag_check(t[i], m2) is Ok by {
        lemma_tag_lands(s[i], m1, m2, t[i]);
    }
    lemma_tags_ok_of_all(t, m2);
}

proof fn lemma_tags_fixed<M1: IdMap, M2: IdMap>(s: Seq<TagId>, m1: &M1, m2: &M2, a: Seq<TagId>, b: Seq<TagId>)
    requires
        fixes_outputs(m1, m2),
        tags_remaps(s, m1, a),
        tags_remaps(a, m2, b),
    ensures
        tags_same(a, b),
{
    assert forall|i: int| 0 <= i < a.len() implies tag_same(#[trigger] a[i], b[i]) by {
        lemma_tag_fixed(s[i], m1, m2, a[i], b[i]);
    }
}

proof fn lemma_tags_compose<M1: IdMap, M2: IdMap, M12: IdMap>(s: Seq<TagId>, m1: &M1, m2: &M2, m12: &M12, a: Seq<TagId>, b: Seq<TagId>)
    requires
        composes(m1, m2, m12),
        tags_remaps(s, m1, a),
        tags_remaps(a, m2, b),
    ensures
        tags_remaps(s, m12, b),
{
    assert forall|i: int| 0 <= i < s.len() implies tag_remaps(#[trigger] s[i], m12, b[i]) by {
        lemma_tag_compose(s[i], m1, m2, m12, a[i], b[i]);
    }
}

proof fn lemma_tags_stable<M: IdMap>(s: Seq<TagId>, m: &M, a: Seq<TagId>, b: Seq<TagId>)
    requires
        settles(m),
        tags_remaps(s, m, a),
        tags_remaps(a, m, b),
    ensures
        tags_same(a, b),
{
    assert forall|i: int| 0 <= i < a.len() implies tag_same(#[trigger] a[i], b[i]) by {
        lemma_tag_stable(s[i], m, a[i], b[i]);
    }
}

/// The first error the walk over a sequence of `(ParamId, Value)` meets, in order.
pub open spec fn param_entries_check<M: IdMap>(s: Seq<(ParamId, Value)>, m: &M) -> Result<(), M::Error>
    decreases s.len(),
{
    if s.len() == 0 {
        Ok(())
    } else {
        then(param_entries_check(s.drop_last(), m), param_entry_check(s.last(), m))
    }
}

/// Whether `t` is `s` with every interned handle translated through `m`.
pub open spec fn param_entries_remaps<M: IdMap>(s: Seq<(ParamId, Value)>, m: &M, t: Seq<(ParamId, Value)>) -> bool
{
    s.len() == t.len() && forall|i: int| 0 <= i < s.len() ==> param_entry_remaps(#[trigger] s[i], m, t[i])
}

/// Whether `s` and `t` hold the same contents.
pub open spec fn param_entries_same(s: Seq<(ParamId, Value)>, t: Seq<(ParamId, Value)>) -> bool
{
    s.len() == t.len() && forall|i: int| 0 <= i < s.len() ==> param_entry_same(#[trigger] s[i], t[i])
}

/// Whether `t` is `s` after a walk through `m` that stopped at its first
/// error: the elements before the one that failed translated, that one walked
/// likewise, the ones after untouched.
pub open spec fn param_entries_walked<M: IdMap>(s: Seq<(ParamId, Value)>, m: &M, t: Seq<(ParamId, Value)>) -> bool
{
    s.len() == t.len() && forall|i: int|
        #![trigger s[i]]
        0 <= i < s.len() ==> {
            &&& (param_entries_check(s.take(i), m) is Ok && param_entry_check(s[i], m) is Ok) ==> param_entry_remaps(s[i], m, t[i])
            &&& (param_entries_check(s.take(i), m) is Ok && param_entry_check(s[i], m) is Err) ==> param_entry_walked(s[i], m, t[i])
            &&& param_entries_check(s.take(i), m) is Err ==> t[i] == s[i]
        }
}

/// Once a prefix of the walk passes, every shorter prefix and every element
/// in it passes.
proof fn lemma_param_entries_prefix_ok<M: IdMap>(s: Seq<(ParamId, Value)>, m: &M, i: int, j: int)
    requires
        0 <= j < i <= s.len(),
        param_entries_check(s.take(i), m) is Ok,
    ensures
        param_entries_check(s.take(j), m) is Ok,
        param_entry_check(s[j], m) is Ok,
{
    if param_entries_check(s.take(j + 1), m) is Err {
        assert(s.take(i).take(j + 1) =~= s.take(j + 1));
        lemma_param_entries_err(s.take(i), m, j + 1);
    }
    assert(s.take(j + 1).drop_last() =~= s.take(j));
    assert(s.take(j + 1).last() == s[j]);
}

/// A walk that stopped at element `i`: translated before it, `i` walked, the
/// rest untouched.
proof fn lemma_param_entries_walked_at<M: IdMap>(s: Seq<(ParamId, Value)>, m: &M, i: int, t: Seq<(ParamId, Value)>)
    requires
        0 <= i < s.len(),
        t.len() == s.len(),
        param_entries_check(s.take(i), m) is Ok,
        param_entry_check(s[i], m) is Err,
        forall|j: int| 0 <= j < i ==> param_entry_remaps(#[trigger] s[j], m, t[j]),
        param_entry_walked(s[i], m, t[i]),
        forall|j: int| i < j < s.len() ==> #[trigger] t[j] == s[j],
    ensures
        param_entries_walked(s, m, t),
{
    lemma_param_entries_err_after(s, m, i);
    assert forall|j: int| 0 <= j < s.len() implies {
        &&& (param_entries_check(s.take(j), m) is Ok && param_entry_check(#[trigger] s[j], m) is Ok) ==> param_entry_remaps(s[j], m, t[j])
        &&& (param_entries_check(s.take(j), m) is Ok && param_entry_check(s[j], m) is Err) ==> param_entry_walked(s[j], m, t[j])
        &&& param_entries_check(s.take(j), m) is Err ==> t[j] == s[j]
    } by {
        if j < i {
            lemma_param_entries_prefix_ok(s, m, i, j);
        } else if j > i {
            assert(param_entries_check(s.take(j), m) is Err);
        }
    }
}

proof fn lemma_param_entries_err_after<M: IdMap>(s: Seq<(ParamId, Value)>, m: &M, i: int)
    requires
        0 <= i < s.len(),
        param_entries_check(s.take(i), m) is Ok,
        param_entry_check(s[i], m) is Err,
    ensures
        forall|j: int| i < j <= s.len() ==> #[trigger] param_entries_check(s.take(j), m) is Err,
{
    assert(s.take(i + 1).drop_last() =~= s.take(i));
    assert forall|j: int| i < j <= s.len() implies #[trigger] param_entries_check(s.take(j), m) is Err by {
        assert(s.take(j).take(i + 1) =~= s.take(i + 1));
        lemma_param_entries_err(s.take(j), m, i + 1);
    }
}

proof fn lemma_param_entries_prefix<M: IdMap>(s: Seq<(ParamId, Value)>, m: &M, i: int)
    requires
        0 <= i < s.len(),
        param_entries_check(s.take(i), m) is Ok,
    ensures
        param_entries_check(s.take(i + 1), m) == then(param_entries_check(s.take(i), m), param_entry_check(s[i], m)),
{
    assert(s.take(i + 1).drop_last() =~= s.take(i));
}

proof fn lemma_param_entries_err<M: IdMap>(s: Seq<(ParamId, Value)>, m: &M, k: int)
    requires
        0 <= k <= s.len(),
        param_entries_check(s.take(k), m) is Err,
    ensures
        param_entries_check(s, m) == param_entries_check(s.take(k), m),
    decreases s.len() - k,
{
    if k < s.len() {
        assert(s.take(k + 1).drop_last() =~= s.take(k));
        lemma_param_entries_err(s, m, k + 1);
    } else {
        assert(s.take(k) =~= s);
    }
}

/// Translate every interned handle in every element of `v` through `m`, in
/// order, stopping at the map's first error.
#[verifier::rlimit(40)]
pub fn remap_param_entries<M: IdMap>(v: &mut Vec<(ParamId, Value)>, m: &M) -> (r: Result<(), M::Error>)
    ensures
        r == param_entries_check(old(v)@, m),
        r is Ok ==> param_entries_remaps(old(v)@, m, final(v)@),
        r is Err ==> param_entries_walked(old(v)@, m, final(v)@),
{
    let ghost orig = *v;
    let n = v.len();
    let mut i: usize = 0;
    assert(orig@.take(0) =~= Seq::<(ParamId, Value)>::empty());
    while i < n
        invariant
            orig == *old(v),
            n == v@.len(),
            v@.len() == orig@.len(),
            i <= n,
            param_entries_check(orig@.take(i as int), m) is Ok,
            forall|j: int| i <= j < n ==> v@[j] == orig@[j],
            forall|j: int| 0 <= j < i ==> param_entry_remaps(#[trigger] orig@[j], m, v@[j]),
        decreases n - i,
    {
        proof {
            lemma_param_entries_prefix(orig@, m, i as int);
        }
        let r = remap_param_entry(&mut v[i], m);
        if r.is_err() {
            proof {
                lemma_param_entries_err(orig@, m, i + 1);
                lemma_param_entries_walked_at(orig@, m, i as int, v@);
            }
            return r;
        }
        i = i + 1;
    }
    proof {
        assert(orig@.take(n as int) =~= orig@);
        lemma_unit_ok(param_entries_check(orig@, m));
    }
    Ok(())
}

proof fn lemma_param_entries_total<M: IdMap>(s: Seq<(ParamId, Value)>, m: &M)
    requires
        total(m),
    ensures
        param_entries_check(s, m) is Ok,
    decreases s.len(),
{
    if s.len() > 0 {
        lemma_param_entries_total(s.drop_last(), m);
        lemma_param_entry_total(s.last(), m);
    }
}

proof fn lemma_param_entries_identity<M: IdMap>(s: Seq<(ParamId, Value)>, m: &M, t: Seq<(ParamId, Value)>)
    requires
        keeps_ids(m),
        param_entries_remaps(s, m, t),
    ensures
        param_entries_same(s, t),
{
    assert forall|i: int| 0 <= i < s.len() implies param_entry_same(#[trigger] s[i], t[i]) by {
        lemma_param_entry_identity(s[i], m, t[i]);
    }
}

proof fn lemma_param_entries_walk_keeps<M: IdMap>(s: Seq<(ParamId, Value)>, m: &M, t: Seq<(ParamId, Value)>)
    requires
        keeps_ids(m),
        param_entries_walked(s, m, t),
    ensures
        param_entries_same(s, t),
{
    assert forall|i: int| 0 <= i < s.len() implies param_entry_same(#[trigger] s[i], t[i]) by {
        if param_entries_check(s.take(i), m) is Ok {
            if param_entry_check(s[i], m) is Ok {
                lemma_param_entry_identity(s[i], m, t[i]);
            } else {
                lemma_param_entry_walk_keeps(s[i], m, t[i]);
            }
        } else {
            lemma_param_entry_same_refl(s[i], m);
        }
    }
}

proof fn lemma_param_entries_same_refl<M: IdMap>(s: Seq<(ParamId, Value)>, m: &M)
    ensures
        param_entries_same(s, s),
{
    assert forall|i: int| 0 <= i < s.len() implies param_entry_same(#[trigger] s[i], s[i]) by {
        lemma_param_entry_same_refl(s[i], m);
    }
}

proof fn lemma_param_entries_ok_of_all<M: IdMap>(t: Seq<(ParamId, Value)>, m: &M)
    requires
        forall|i: int| 0 <= i < t.len() ==> #[trigger] param_entry_check(t[i], m) is Ok,
    ensures
        param_entries_check(t, m) is Ok,
    decreases t.len(),
{
    if t.len() > 0 {
        assert forall|i: int| 0 <= i < t.drop_last().len() implies #[trigger] param_entry_check(t.drop_last()[i], m) is Ok by {
            assert(t.drop_last()[i] == t[i]);
        }
        lemma_param_entries_ok_of_all(t.drop_last(), m);
        assert(param_entry_check(t[t.len() - 1], m) is Ok);
    }
}

proof fn lemma_param_entries_lands<M1: IdMap, M2: IdMap>(s: Seq<(ParamId, Value)>, m1: &M1, m2: &M2, t: Seq<(ParamId, Value)>)
    requires
        lands_in(m1, m2),
        param_entries_remaps(s, m1, t),
    ensures
        param_entries_check(t, m2) is Ok,
{
    assert forall|i: int| 0 <= i < t.len() implies #[trigger] param_entry_check(t[i], m2) is Ok by {
        lemma_param_entry_lands(s[i], m1, m2, t[i]);
    }
    lemma_param_entries_ok_of_all(t, m2);
}

proof fn lemma_param_entries_fixed<M1: IdMap, M2: IdMap>(s: Seq<(ParamId, Value)>, m1: &M1, m2: &M2, a: Seq<(ParamId, Value)>, b: Seq<(ParamId, Value)>)
    requires
        fixes_outputs(m1, m2),
        param_entries_remaps(s, m1, a),
        param_entries_remaps(a, m2, b),
    ensures
        param_entries_same(a, b),
{
    assert forall|i: int| 0 <= i < a.len() implies param_entry_same(#[trigger] a[i], b[i]) by {
        lemma_param_entry_fixed(s[i], m1, m2, a[i], b[i]);
    }
}

proof fn lemma_param_entries_compose<M1: IdMap, M2: IdMap, M12: IdMap>(s: Seq<(ParamId, Value)>, m1: &M1, m2: &M2, m12: &M12, a: Seq<(ParamId, Value)>, b: Seq<(ParamId, Value)>)
    requires
        composes(m1, m2, m12),
        param_entries_remaps(s, m1, a),
        param_entries_remaps(a, m2, b),
    ensures
        param_entries_remaps(s, m12, b),
{
    assert forall|i: int| 0 <= i < s.len() implies param_entry_remaps(#[trigger] s[i], m12, b[i]) by {
        lemma_param_entry_compose(s[i], m1, m2, m12, a[i], b[i]);
    }
}

proof fn lemma_param_entries_stable<M: IdMap>(s: Seq<(ParamId, Value)>, m: &M, a: Seq<(ParamId, Value)>, b: Seq<(ParamId, Value)>)
    requires
        settles(m),
        param_entries_remaps(s, m, a),
        param_entries_remaps(a, m, b),
    ensures
        param_entries_same(a, b),
{
    assert forall|i: int| 0 <= i < a.len() implies param_entry_same(#[trigger] a[i], b[i]) by {
        lemma_param_entry_stable(s[i], m, a[i], b[i]);
    }
}

/// The first error the walk over a sequence of `(TagId, TagClassId)` meets, in order.
pub open spec fn tag_class_entries_check<M: IdMap>(s: Seq<(TagId, TagClassId)>, m: &M) -> Result<(), M::Error>
    decreases s.len(),
{
    if s.len() == 0 {
        Ok(())
    } else {
        then(tag_class_entries_check(s.drop_last(), m), tag_class_entry_check(s.last(), m))
    }
}

/// Whether `t` is `s` with every interned handle translated through `m`.
pub open spec fn tag_class_entries_remaps<M: IdMap>(s: Seq<(TagId, TagClassId)>, m: &M, t: Seq<(TagId, TagClassId)>) -> bool
{
    s.len() == t.len() && forall|i: int| 0 <= i < s.len() ==> tag_class_entry_remaps(#[trigger] s[i], m, t[i])
}

/// Whether `s` and `t` hold the same contents.
pub open spec fn tag_class_entries_same(s: Seq<(TagId, TagClassId)>, t: Seq<(TagId, TagClassId)>) -> bool
{
    s.len() == t.len() && forall|i: int| 0 <= i < s.len() ==> tag_class_entry_same(#[trigger] s[i], t[i])
}

/// Whether `t` is `s` after a walk through `m` that stopped at its first
/// error: the elements before the one that failed translated, that one walked
/// likewise, the ones after untouched.
pub open spec fn tag_class_entries_walked<M: IdMap>(s: Seq<(TagId, TagClassId)>, m: &M, t: Seq<(TagId, TagClassId)>) -> bool
{
    s.len() == t.len() && forall|i: int|
        #![trigger s[i]]
        0 <= i < s.len() ==> {
            &&& (tag_class_entries_check(s.take(i), m) is Ok && tag_class_entry_check(s[i], m) is Ok) ==> tag_class_entry_remaps(s[i], m, t[i])
            &&& (tag_class_entries_check(s.take(i), m) is Ok && tag_class_entry_check(s[i], m) is Err) ==> tag_class_entry_walked(s[i], m, t[i])
            &&& tag_class_entries_check(s.take(i), m) is Err ==> t[i] == s[i]
        }
}

/// Once a prefix of the walk passes, every shorter prefix and every element
/// in it passes.
proof fn lemma_tag_class_entries_prefix_ok<M: IdMap>(s: Seq<(TagId, TagClassId)>, m: &M, i: int, j: int)
    requires
        0 <= j < i <= s.len(),
        tag_class_entries_check(s.take(i), m) is Ok,
    ensures
        tag_class_entries_check(s.take(j), m) is Ok,
        tag_class_entry_check(s[j], m) is Ok,
{
    if tag_class_entries_check(s.take(j + 1), m) is Err {
        assert(s.take(i).take(j + 1) =~= s.take(j + 1));
        lemma_tag_class_entries_err(s.take(i), m, j + 1);
    }
    assert(s.take(j + 1).drop_last() =~= s.take(j));
    assert(s.take(j + 1).last() == s[j]);
}

/// A walk that stopped at element `i`: translated before it, `i` walked, the
/// rest untouched.
proof fn lemma_tag_class_entries_walked_at<M: IdMap>(s: Seq<(TagId, TagClassId)>, m: &M, i: int, t: Seq<(TagId, TagClassId)>)
    requires
        0 <= i < s.len(),
        t.len() == s.len(),
        tag_class_entries_check(s.take(i), m) is Ok,
        tag_class_entry_check(s[i], m) is Err,
        forall|j: int| 0 <= j < i ==> tag_class_entry_remaps(#[trigger] s[j], m, t[j]),
        tag_class_entry_walked(s[i], m, t[i]),
        forall|j: int| i < j < s.len() ==> #[trigger] t[j] == s[j],
    ensures
        tag_class_entries_walked(s, m, t),
{
    lemma_tag_class_entries_err_after(s, m, i);
    assert forall|j: int| 0 <= j < s.len() implies {
        &&& (tag_class_entries_check(s.take(j), m) is Ok && tag_class_entry_check(#[trigger] s[j], m) is Ok) ==> tag_class_entry_remaps(s[j], m, t[j])
        &&& (tag_class_entries_check(s.take(j), m) is Ok && tag_class_entry_check(s[j], m) is Err) ==> tag_class_entry_walked(s[j], m, t[j])
        &&& tag_class_entries_check(s.take(j), m) is Err ==> t[j] == s[j]
    } by {
        if j < i {
            lemma_tag_class_entries_prefix_ok(s, m, i, j);
        } else if j > i {
            assert(tag_class_entries_check(s.take(j), m) is Err);
        }
    }
}

proof fn lemma_tag_class_entries_err_after<M: IdMap>(s: Seq<(TagId, TagClassId)>, m: &M, i: int)
    requires
        0 <= i < s.len(),
        tag_class_entries_check(s.take(i), m) is Ok,
        tag_class_entry_check(s[i], m) is Err,
    ensures
        forall|j: int| i < j <= s.len() ==> #[trigger] tag_class_entries_check(s.take(j), m) is Err,
{
    assert(s.take(i + 1).drop_last() =~= s.take(i));
    assert forall|j: int| i < j <= s.len() implies #[trigger] tag_class_entries_check(s.take(j), m) is Err by {
        assert(s.take(j).take(i + 1) =~= s.take(i + 1));
        lemma_tag_class_entries_err(s.take(j), m, i + 1);
    }
}

proof fn lemma_tag_class_entries_prefix<M: IdMap>(s: Seq<(TagId, TagClassId)>, m: &M, i: int)
    requires
        0 <= i < s.len(),
        tag_class_entries_check(s.take(i), m) is Ok,
    ensures
        tag_class_entries_check(s.take(i + 1), m) == then(tag_class_entries_check(s.take(i), m), tag_class_entry_check(s[i], m)),
{
    assert(s.take(i + 1).drop_last() =~= s.take(i));
}

proof fn lemma_tag_class_entries_err<M: IdMap>(s: Seq<(TagId, TagClassId)>, m: &M, k: int)
    requires
        0 <= k <= s.len(),
        tag_class_entries_check(s.take(k), m) is Err,
    ensures
        tag_class_entries_check(s, m) == tag_class_entries_check(s.take(k), m),
    decreases s.len() - k,
{
    if k < s.len() {
        assert(s.take(k + 1).drop_last() =~= s.take(k));
        lemma_tag_class_entries_err(s, m, k + 1);
    } else {
        assert(s.take(k) =~= s);
    }
}

/// Translate every interned handle in every element of `v` through `m`, in
/// order, stopping at the map's first error.
#[verifier::rlimit(40)]
pub fn remap_tag_class_entries<M: IdMap>(v: &mut Vec<(TagId, TagClassId)>, m: &M) -> (r: Result<(), M::Error>)
    ensures
        r == tag_class_entries_check(old(v)@, m),
        r is Ok ==> tag_class_entries_remaps(old(v)@, m, final(v)@),
        r is Err ==> tag_class_entries_walked(old(v)@, m, final(v)@),
{
    let ghost orig = *v;
    let n = v.len();
    let mut i: usize = 0;
    assert(orig@.take(0) =~= Seq::<(TagId, TagClassId)>::empty());
    while i < n
        invariant
            orig == *old(v),
            n == v@.len(),
            v@.len() == orig@.len(),
            i <= n,
            tag_class_entries_check(orig@.take(i as int), m) is Ok,
            forall|j: int| i <= j < n ==> v@[j] == orig@[j],
            forall|j: int| 0 <= j < i ==> tag_class_entry_remaps(#[trigger] orig@[j], m, v@[j]),
        decreases n - i,
    {
        proof {
            lemma_tag_class_entries_prefix(orig@, m, i as int);
        }
        let r = remap_tag_class_entry(&mut v[i], m);
        if r.is_err() {
            proof {
                lemma_tag_class_entries_err(orig@, m, i + 1);
                lemma_tag_class_entries_walked_at(orig@, m, i as int, v@);
            }
            return r;
        }
        i = i + 1;
    }
    proof {
        assert(orig@.take(n as int) =~= orig@);
        lemma_unit_ok(tag_class_entries_check(orig@, m));
    }
    Ok(())
}

proof fn lemma_tag_class_entries_total<M: IdMap>(s: Seq<(TagId, TagClassId)>, m: &M)
    requires
        total(m),
    ensures
        tag_class_entries_check(s, m) is Ok,
    decreases s.len(),
{
    if s.len() > 0 {
        lemma_tag_class_entries_total(s.drop_last(), m);
        lemma_tag_class_entry_total(s.last(), m);
    }
}

proof fn lemma_tag_class_entries_identity<M: IdMap>(s: Seq<(TagId, TagClassId)>, m: &M, t: Seq<(TagId, TagClassId)>)
    requires
        keeps_ids(m),
        tag_class_entries_remaps(s, m, t),
    ensures
        tag_class_entries_same(s, t),
{
    assert forall|i: int| 0 <= i < s.len() implies tag_class_entry_same(#[trigger] s[i], t[i]) by {
        lemma_tag_class_entry_identity(s[i], m, t[i]);
    }
}

proof fn lemma_tag_class_entries_walk_keeps<M: IdMap>(s: Seq<(TagId, TagClassId)>, m: &M, t: Seq<(TagId, TagClassId)>)
    requires
        keeps_ids(m),
        tag_class_entries_walked(s, m, t),
    ensures
        tag_class_entries_same(s, t),
{
    assert forall|i: int| 0 <= i < s.len() implies tag_class_entry_same(#[trigger] s[i], t[i]) by {
        if tag_class_entries_check(s.take(i), m) is Ok {
            if tag_class_entry_check(s[i], m) is Ok {
                lemma_tag_class_entry_identity(s[i], m, t[i]);
            } else {
                lemma_tag_class_entry_walk_keeps(s[i], m, t[i]);
            }
        } else {
            lemma_tag_class_entry_same_refl(s[i], m);
        }
    }
}

proof fn lemma_tag_class_entries_same_refl<M: IdMap>(s: Seq<(TagId, TagClassId)>, m: &M)
    ensures
        tag_class_entries_same(s, s),
{
    assert forall|i: int| 0 <= i < s.len() implies tag_class_entry_same(#[trigger] s[i], s[i]) by {
        lemma_tag_class_entry_same_refl(s[i], m);
    }
}

proof fn lemma_tag_class_entries_ok_of_all<M: IdMap>(t: Seq<(TagId, TagClassId)>, m: &M)
    requires
        forall|i: int| 0 <= i < t.len() ==> #[trigger] tag_class_entry_check(t[i], m) is Ok,
    ensures
        tag_class_entries_check(t, m) is Ok,
    decreases t.len(),
{
    if t.len() > 0 {
        assert forall|i: int| 0 <= i < t.drop_last().len() implies #[trigger] tag_class_entry_check(t.drop_last()[i], m) is Ok by {
            assert(t.drop_last()[i] == t[i]);
        }
        lemma_tag_class_entries_ok_of_all(t.drop_last(), m);
        assert(tag_class_entry_check(t[t.len() - 1], m) is Ok);
    }
}

proof fn lemma_tag_class_entries_lands<M1: IdMap, M2: IdMap>(s: Seq<(TagId, TagClassId)>, m1: &M1, m2: &M2, t: Seq<(TagId, TagClassId)>)
    requires
        lands_in(m1, m2),
        tag_class_entries_remaps(s, m1, t),
    ensures
        tag_class_entries_check(t, m2) is Ok,
{
    assert forall|i: int| 0 <= i < t.len() implies #[trigger] tag_class_entry_check(t[i], m2) is Ok by {
        lemma_tag_class_entry_lands(s[i], m1, m2, t[i]);
    }
    lemma_tag_class_entries_ok_of_all(t, m2);
}

proof fn lemma_tag_class_entries_fixed<M1: IdMap, M2: IdMap>(s: Seq<(TagId, TagClassId)>, m1: &M1, m2: &M2, a: Seq<(TagId, TagClassId)>, b: Seq<(TagId, TagClassId)>)
    requires
        fixes_outputs(m1, m2),
        tag_class_entries_remaps(s, m1, a),
        tag_class_entries_remaps(a, m2, b),
    ensures
        tag_class_entries_same(a, b),
{
    assert forall|i: int| 0 <= i < a.len() implies tag_class_entry_same(#[trigger] a[i], b[i]) by {
        lemma_tag_class_entry_fixed(s[i], m1, m2, a[i], b[i]);
    }
}

proof fn lemma_tag_class_entries_compose<M1: IdMap, M2: IdMap, M12: IdMap>(s: Seq<(TagId, TagClassId)>, m1: &M1, m2: &M2, m12: &M12, a: Seq<(TagId, TagClassId)>, b: Seq<(TagId, TagClassId)>)
    requires
        composes(m1, m2, m12),
        tag_class_entries_remaps(s, m1, a),
        tag_class_entries_remaps(a, m2, b),
    ensures
        tag_class_entries_remaps(s, m12, b),
{
    assert forall|i: int| 0 <= i < s.len() implies tag_class_entry_remaps(#[trigger] s[i], m12, b[i]) by {
        lemma_tag_class_entry_compose(s[i], m1, m2, m12, a[i], b[i]);
    }
}

proof fn lemma_tag_class_entries_stable<M: IdMap>(s: Seq<(TagId, TagClassId)>, m: &M, a: Seq<(TagId, TagClassId)>, b: Seq<(TagId, TagClassId)>)
    requires
        settles(m),
        tag_class_entries_remaps(s, m, a),
        tag_class_entries_remaps(a, m, b),
    ensures
        tag_class_entries_same(a, b),
{
    assert forall|i: int| 0 <= i < a.len() implies tag_class_entry_same(#[trigger] a[i], b[i]) by {
        lemma_tag_class_entry_stable(s[i], m, a[i], b[i]);
    }
}

/// The first error the walk over a sequence of `Condition` meets, in order.
pub open spec fn conditions_check<M: IdMap>(s: Seq<Condition>, m: &M) -> Result<(), M::Error>
    decreases s,
{
    if s.len() == 0 {
        Ok(())
    } else {
        then(conditions_check(s.drop_last(), m), condition_check(s.last(), m))
    }
}

/// Whether `t` is `s` with every interned handle translated through `m`.
pub open spec fn conditions_remaps<M: IdMap>(s: Seq<Condition>, m: &M, t: Seq<Condition>) -> bool
    decreases s,
{
    s.len() == t.len() && forall|i: int| 0 <= i < s.len() ==> condition_remaps(#[trigger] s[i], m, t[i])
}

/// Whether `s` and `t` hold the same contents.
pub open spec fn conditions_same(s: Seq<Condition>, t: Seq<Condition>) -> bool
    decreases s,
{
    s.len() == t.len() && forall|i: int| 0 <= i < s.len() ==> condition_same(#[trigger] s[i], t[i])
}

/// Whether `t` is `s` after a walk through `m` that stopped at its first
/// error: the elements before the one that failed translated, that one walked
/// likewise, the ones after untouched.
pub open spec fn conditions_walked<M: IdMap>(s: Seq<Condition>, m: &M, t: Seq<Condition>) -> bool
    decreases s,
{
    s.len() == t.len() && forall|i: int|
        #![trigger s[i]]
        0 <= i < s.len() ==> {
            &&& (conditions_check(s.take(i), m) is Ok && condition_check(s[i], m) is Ok) ==> condition_remaps(s[i], m, t[i])
            &&& (conditions_check(s.take(i), m) is Ok && condition_check(s[i], m) is Err) ==> condition_walked(s[i], m, t[i])
            &&& conditions_check(s.take(i), m) is Err ==> t[i] == s[i]
        }
}

/// Once a prefix of the walk passes, every shorter prefix and every element
/// in it passes.
proof fn lemma_conditions_prefix_ok<M: IdMap>(s: Seq<Condition>, m: &M, i: int, j: int)
    requires
        0 <= j < i <= s.len(),
        conditions_check(s.take(i), m) is Ok,
    ensures
        conditions_check(s.take(j), m) is Ok,
        condition_check(s[j], m) is Ok,
{
    if conditions_check(s.take(j + 1), m) is Err {
        assert(s.take(i).take(j + 1) =~= s.take(j + 1));
        lemma_conditions_err(s.take(i), m, j + 1);
    }
    assert(s.take(j + 1).drop_last() =~= s.take(j));
    assert(s.take(j + 1).last() == s[j]);
}

/// A walk that stopped at element `i`: translated before it, `i` walked, the
/// rest untouched.
proof fn lemma_conditions_walked_at<M: IdMap>(s: Seq<Condition>, m: &M, i: int, t: Seq<Condition>)
    requires
        0 <= i < s.len(),
        t.len() == s.len(),
        conditions_check(s.take(i), m) is Ok,
        condition_check(s[i], m) is Err,
        forall|j: int| 0 <= j < i ==> condition_remaps(#[trigger] s[j], m, t[j]),
        condition_walked(s[i], m, t[i]),
        forall|j: int| i < j < s.len() ==> #[trigger] t[j] == s[j],
    ensures
        conditions_walked(s, m, t),
{
    lemma_conditions_err_after(s, m, i);
    assert forall|j: int| 0 <= j < s.len() implies {
        &&& (conditions_check(s.take(j), m) is Ok && condition_check(#[trigger] s[j], m) is Ok) ==> condition_remaps(s[j], m, t[j])
        &&& (conditions_check(s.take(j), m) is Ok && condition_check(s[j], m) is Err) ==> condition_walked(s[j], m, t[j])
        &&& conditions_check(s.take(j), m) is Err ==> t[j] == s[j]
    } by {
        if j < i {
            lemma_conditions_prefix_ok(s, m, i, j);
        } else if j > i {
            assert(conditions_check(s.take(j), m) is Err);
        }
    }
}

proof fn lemma_conditions_err_after<M: IdMap>(s: Seq<Condition>, m: &M, i: int)
    requires
        0 <= i < s.len(),
        conditions_check(s.take(i), m) is Ok,
        condition_check(s[i], m) is Err,
    ensures
        forall|j: int| i < j <= s.len() ==> #[trigger] conditions_check(s.take(j), m) is Err,
{
    assert(s.take(i + 1).drop_last() =~= s.take(i));
    assert forall|j: int| i < j <= s.len() implies #[trigger] conditions_check(s.take(j), m) is Err by {
        assert(s.take(j).take(i + 1) =~= s.take(i + 1));
        lemma_conditions_err(s.take(j), m, i + 1);
    }
}

proof fn lemma_conditions_prefix<M: IdMap>(s: Seq<Condition>, m: &M, i: int)
    requires
        0 <= i < s.len(),
        conditions_check(s.take(i), m) is Ok,
    ensures
        conditions_check(s.take(i + 1), m) == then(conditions_check(s.take(i), m), condition_check(s[i], m)),
{
    assert(s.take(i + 1).drop_last() =~= s.take(i));
}

proof fn lemma_conditions_err<M: IdMap>(s: Seq<Condition>, m: &M, k: int)
    requires
        0 <= k <= s.len(),
        conditions_check(s.take(k), m) is Err,
    ensures
        conditions_check(s, m) == conditions_check(s.take(k), m),
    decreases s.len() - k,
{
    if k < s.len() {
        assert(s.take(k + 1).drop_last() =~= s.take(k));
        lemma_conditions_err(s, m, k + 1);
    } else {
        assert(s.take(k) =~= s);
    }
}

/// Translate every interned handle in every element of `v` through `m`, in
/// order, stopping at the map's first error.
#[verifier::rlimit(40)]
pub fn remap_conditions<M: IdMap>(v: &mut Vec<Condition>, m: &M) -> (r: Result<(), M::Error>)
    ensures
        r == conditions_check(old(v)@, m),
        r is Ok ==> conditions_remaps(old(v)@, m, final(v)@),
        r is Err ==> conditions_walked(old(v)@, m, final(v)@),
    decreases *old(v),
{
    let ghost orig = *v;
    let n = v.len();
    let mut i: usize = 0;
    assert(orig@.take(0) =~= Seq::<Condition>::empty());
    while i < n
        invariant
            orig == *old(v),
            n == v@.len(),
            v@.len() == orig@.len(),
            i <= n,
            conditions_check(orig@.take(i as int), m) is Ok,
            forall|j: int| i <= j < n ==> v@[j] == orig@[j],
            forall|j: int| 0 <= j < i ==> condition_remaps(#[trigger] orig@[j], m, v@[j]),
        decreases n - i,
    {
        proof {
            assert(decreases_to!(orig => orig@));
            assert(decreases_to!(orig@ => orig@[i as int]));
                    lemma_conditions_prefix(orig@, m, i as int);
        }
        let r = remap_condition(&mut v[i], m);
        if r.is_err() {
            proof {
                lemma_conditions_err(orig@, m, i + 1);
                lemma_conditions_walked_at(orig@, m, i as int, v@);
            }
            return r;
        }
        i = i + 1;
    }
    proof {
        assert(orig@.take(n as int) =~= orig@);
        lemma_unit_ok(conditions_check(orig@, m));
    }
    Ok(())
}

proof fn lemma_conditions_total<M: IdMap>(s: Seq<Condition>, m: &M)
    requires
        total(m),
    ensures
        conditions_check(s, m) is Ok,
    decreases s,
{
    if s.len() > 0 {
        lemma_conditions_total(s.drop_last(), m);
        lemma_condition_total(s.last(), m);
    }
}

proof fn lemma_conditions_identity<M: IdMap>(s: Seq<Condition>, m: &M, t: Seq<Condition>)
    requires
        keeps_ids(m),
        conditions_remaps(s, m, t),
    ensures
        conditions_same(s, t),
    decreases s,
{
    assert forall|i: int| 0 <= i < s.len() implies condition_same(#[trigger] s[i], t[i]) by {
        assert(decreases_to!(s => s[i]));
        lemma_condition_identity(s[i], m, t[i]);
    }
}

proof fn lemma_conditions_walk_keeps<M: IdMap>(s: Seq<Condition>, m: &M, t: Seq<Condition>)
    requires
        keeps_ids(m),
        conditions_walked(s, m, t),
    ensures
        conditions_same(s, t),
    decreases s,
{
    assert forall|i: int| 0 <= i < s.len() implies condition_same(#[trigger] s[i], t[i]) by {
        assert(decreases_to!(s => s[i]));
        if conditions_check(s.take(i), m) is Ok {
            if condition_check(s[i], m) is Ok {
                lemma_condition_identity(s[i], m, t[i]);
            } else {
                lemma_condition_walk_keeps(s[i], m, t[i]);
            }
        } else {
            lemma_condition_same_refl(s[i], m);
        }
    }
}

proof fn lemma_conditions_same_refl<M: IdMap>(s: Seq<Condition>, m: &M)
    ensures
        conditions_same(s, s),
    decreases s,
{
    assert forall|i: int| 0 <= i < s.len() implies condition_same(#[trigger] s[i], s[i]) by {
        assert(decreases_to!(s => s[i]));
        lemma_condition_same_refl(s[i], m);
    }
}

proof fn lemma_conditions_ok_of_all<M: IdMap>(t: Seq<Condition>, m: &M)
    requires
        forall|i: int| 0 <= i < t.len() ==> #[trigger] condition_check(t[i], m) is Ok,
    ensures
        conditions_check(t, m) is Ok,
    decreases t.len(),
{
    if t.len() > 0 {
        assert forall|i: int| 0 <= i < t.drop_last().len() implies #[trigger] condition_check(t.drop_last()[i], m) is Ok by {
            assert(t.drop_last()[i] == t[i]);
        }
        lemma_conditions_ok_of_all(t.drop_last(), m);
        assert(condition_check(t[t.len() - 1], m) is Ok);
    }
}

proof fn lemma_conditions_lands<M1: IdMap, M2: IdMap>(s: Seq<Condition>, m1: &M1, m2: &M2, t: Seq<Condition>)
    requires
        lands_in(m1, m2),
        conditions_remaps(s, m1, t),
    ensures
        conditions_check(t, m2) is Ok,
    decreases s,
{
    assert forall|i: int| 0 <= i < t.len() implies #[trigger] condition_check(t[i], m2) is Ok by {
        assert(decreases_to!(s => s[i]));
        lemma_condition_lands(s[i], m1, m2, t[i]);
    }
    lemma_conditions_ok_of_all(t, m2);
}

proof fn lemma_conditions_fixed<M1: IdMap, M2: IdMap>(s: Seq<Condition>, m1: &M1, m2: &M2, a: Seq<Condition>, b: Seq<Condition>)
    requires
        fixes_outputs(m1, m2),
        conditions_remaps(s, m1, a),
        conditions_remaps(a, m2, b),
    ensures
        conditions_same(a, b),
    decreases s,
{
    assert forall|i: int| 0 <= i < a.len() implies condition_same(#[trigger] a[i], b[i]) by {
        assert(decreases_to!(s => s[i]));
        lemma_condition_fixed(s[i], m1, m2, a[i], b[i]);
    }
}

proof fn lemma_conditions_compose<M1: IdMap, M2: IdMap, M12: IdMap>(s: Seq<Condition>, m1: &M1, m2: &M2, m12: &M12, a: Seq<Condition>, b: Seq<Condition>)
    requires
        composes(m1, m2, m12),
        conditions_remaps(s, m1, a),
        conditions_remaps(a, m2, b),
    ensures
        conditions_remaps(s, m12, b),
    decreases s,
{
    assert forall|i: int| 0 <= i < s.len() implies condition_remaps(#[trigger] s[i], m12, b[i]) by {
        assert(decreases_to!(s => s[i]));
        lemma_condition_compose(s[i], m1, m2, m12, a[i], b[i]);
    }
}

proof fn lemma_conditions_stable<M: IdMap>(s: Seq<Condition>, m: &M, a: Seq<Condition>, b: Seq<Condition>)
    requires
        settles(m),
        conditions_remaps(s, m, a),
        conditions_remaps(a, m, b),
    ensures
        conditions_same(a, b),
    decreases s,
{
    assert forall|i: int| 0 <= i < a.len() implies condition_same(#[trigger] a[i], b[i]) by {
        assert(decreases_to!(s => s[i]));
        lemma_condition_stable(s[i], m, a[i], b[i]);
    }
}

/// The first error the walk over a sequence of `Impact` meets, in order.
pub open spec fn impacts_check<M: IdMap>(s: Seq<Impact>, m: &M) -> Result<(), M::Error>
    decreases s,
{
    if s.len() == 0 {
        Ok(())
    } else {
        then(impacts_check(s.drop_last(), m), impact_check(s.last(), m))
    }
}

/// Whether `t` is `s` with every interned handle translated through `m`.
pub open spec fn impacts_remaps<M: IdMap>(s: Seq<Impact>, m: &M, t: Seq<Impact>) -> bool
    decreases s,
{
    s.len() == t.len() && forall|i: int| 0 <= i < s.len() ==> impact_remaps(#[trigger] s[i], m, t[i])
}

/// Whether `s` and `t` hold the same contents.
pub open spec fn impacts_same(s: Seq<Impact>, t: Seq<Impact>) -> bool
    decreases s,
{
    s.len() == t.len() && forall|i: int| 0 <= i < s.len() ==> impact_same(#[trigger] s[i], t[i])
}

/// Whether `t` is `s` after a walk through `m` that stopped at its first
/// error: the elements before the one that failed translated, that one walked
/// likewise, the ones after untouched.
pub open spec fn impacts_walked<M: IdMap>(s: Seq<Impact>, m: &M, t: Seq<Impact>) -> bool
    decreases s,
{
    s.len() == t.len() && forall|i: int|
        #![trigger s[i]]
        0 <= i < s.len() ==> {
            &&& (impacts_check(s.take(i), m) is Ok && impact_check(s[i], m) is Ok) ==> impact_remaps(s[i], m, t[i])
            &&& (impacts_check(s.take(i), m) is Ok && impact_check(s[i], m) is Err) ==> impact_walked(s[i], m, t[i])
            &&& impacts_check(s.take(i), m) is Err ==> t[i] == s[i]
        }
}

/// Once a prefix of the walk passes, every shorter prefix and every element
/// in it passes.
proof fn lemma_impacts_prefix_ok<M: IdMap>(s: Seq<Impact>, m: &M, i: int, j: int)
    requires
        0 <= j < i <= s.len(),
        impacts_check(s.take(i), m) is Ok,
    ensures
        impacts_check(s.take(j), m) is Ok,
        impact_check(s[j], m) is Ok,
{
    if impacts_check(s.take(j + 1), m) is Err {
        assert(s.take(i).take(j + 1) =~= s.take(j + 1));
        lemma_impacts_err(s.take(i), m, j + 1);
    }
    assert(s.take(j + 1).drop_last() =~= s.take(j));
    assert(s.take(j + 1).last() == s[j]);
}

/// A walk that stopped at element `i`: translated before it, `i` walked, the
/// rest untouched.
proof fn lemma_impacts_walked_at<M: IdMap>(s: Seq<Impact>, m: &M, i: int, t: Seq<Impact>)
    requires
        0 <= i < s.len(),
        t.len() == s.len(),
        impacts_check(s.take(i), m) is Ok,
        impact_check(s[i], m) is Err,
        forall|j: int| 0 <= j < i ==> impact_remaps(#[trigger] s[j], m, t[j]),
        impact_walked(s[i], m, t[i]),
        forall|j: int| i < j < s.len() ==> #[trigger] t[j] == s[j],
    ensures
        impacts_walked(s, m, t),
{
    lemma_impacts_err_after(s, m, i);
    assert forall|j: int| 0 <= j < s.len() implies {
        &&& (impacts_check(s.take(j), m) is Ok && impact_check(#[trigger] s[j], m) is Ok) ==> impact_remaps(s[j], m, t[j])
        &&& (impacts_check(s.take(j), m) is Ok && impact_check(s[j], m) is Err) ==> impact_walked(s[j], m, t[j])
        &&& impacts_check(s.take(j), m) is Err ==> t[j] == s[j]
    } by {
        if j < i {
            lemma_impacts_prefix_ok(s, m, i, j);
        } else if j > i {
            assert(impacts_check(s.take(j), m) is Err);
        }
    }
}

proof fn lemma_impacts_err_after<M: IdMap>(s: Seq<Impact>, m: &M, i: int)
    requires
        0 <= i < s.len(),
        impacts_check(s.take(i), m) is Ok,
        impact_check(s[i], m) is Err,
    ensures
        forall|j: int| i < j <= s.len() ==> #[trigger] impacts_check(s.take(j), m) is Err,
{
    assert(s.take(i + 1).drop_last() =~= s.take(i));
    assert forall|j: int| i < j <= s.len() implies #[trigger] impacts_check(s.take(j), m) is Err by {
        assert(s.take(j).take(i + 1) =~= s.take(i + 1));
        lemma_impacts_err(s.take(j), m, i + 1);
    }
}

proof fn lemma_impacts_prefix<M: IdMap>(s: Seq<Impact>, m: &M, i: int)
    requires
        0 <= i < s.len(),
        impacts_check(s.take(i), m) is Ok,
    ensures
        impacts_check(s.take(i + 1), m) == then(impacts_check(s.take(i), m), impact_check(s[i], m)),
{
    assert(s.take(i + 1).drop_last() =~= s.take(i));
}

proof fn lemma_impacts_err<M: IdMap>(s: Seq<Impact>, m: &M, k: int)
    requires
        0 <= k <= s.len(),
        impacts_check(s.take(k), m) is Err,
    ensures
        impacts_check(s, m) == impacts_check(s.take(k), m),
    decreases s.len() - k,
{
    if k < s.len() {
        assert(s.take(k + 1).drop_last() =~= s.take(k));
        lemma_impacts_err(s, m, k + 1);
    } else {
        assert(s.take(k) =~= s);
    }
}

/// Translate every interned handle in every element of `v` through `m`, in
/// order, stopping at the map's first error.
#[verifier::rlimit(40)]
pub fn remap_impacts<M: IdMap>(v: &mut Vec<Impact>, m: &M) -> (r: Result<(), M::Error>)
    ensures
        r == impacts_check(old(v)@, m),
        r is Ok ==> impacts_remaps(old(v)@, m, final(v)@),
        r is Err ==> impacts_walked(old(v)@, m, final(v)@),
    decreases *old(v),
{
    let ghost orig = *v;
    let n = v.len();
    let mut i: usize = 0;
    assert(orig@.take(0) =~= Seq::<Impact>::empty());
    while i < n
        invariant
            orig == *old(v),
            n == v@.len(),
            v@.len() == orig@.len(),
            i <= n,
            impacts_check(orig@.take(i as int), m) is Ok,
            forall|j: int| i <= j < n ==> v@[j] == orig@[j],
            forall|j: int| 0 <= j < i ==> impact_remaps(#[trigger] orig@[j], m, v@[j]),
        decreases n - i,
    {
        proof {
            assert(decreases_to!(orig => orig@));
            assert(decreases_to!(orig@ => orig@[i as int]));
                    lemma_impacts_prefix(orig@, m, i as int);
        }
        let r = remap_impact(&mut v[i], m);
        if r.is_err() {
            proof {
                lemma_impacts_err(orig@, m, i + 1);
                lemma_impacts_walked_at(orig@, m, i as int, v@);
            }
            return r;
        }
        i = i + 1;
    }
    proof {
        assert(orig@.take(n as int) =~= orig@);
        lemma_unit_ok(impacts_check(orig@, m));
    }
    Ok(())
}

proof fn lemma_impacts_total<M: IdMap>(s: Seq<Impact>, m: &M)
    requires
        total(m),
    ensures
        impacts_check(s, m) is Ok,
    decreases s,
{
    if s.len() > 0 {
        lemma_impacts_total(s.drop_last(), m);
        lemma_impact_total(s.last(), m);
    }
}

proof fn lemma_impacts_identity<M: IdMap>(s: Seq<Impact>, m: &M, t: Seq<Impact>)
    requires
        keeps_ids(m),
        impacts_remaps(s, m, t),
    ensures
        impacts_same(s, t),
    decreases s,
{
    assert forall|i: int| 0 <= i < s.len() implies impact_same(#[trigger] s[i], t[i]) by {
        assert(decreases_to!(s => s[i]));
        lemma_impact_identity(s[i], m, t[i]);
    }
}

proof fn lemma_impacts_walk_keeps<M: IdMap>(s: Seq<Impact>, m: &M, t: Seq<Impact>)
    requires
        keeps_ids(m),
        impacts_walked(s, m, t),
    ensures
        impacts_same(s, t),
    decreases s,
{
    assert forall|i: int| 0 <= i < s.len() implies impact_same(#[trigger] s[i], t[i]) by {
        assert(decreases_to!(s => s[i]));
        if impacts_check(s.take(i), m) is Ok {
            if impact_check(s[i], m) is Ok {
                lemma_impact_identity(s[i], m, t[i]);
            } else {
                lemma_impact_walk_keeps(s[i], m, t[i]);
            }
        } else {
            lemma_impact_same_refl(s[i], m);
        }
    }
}

proof fn lemma_impacts_same_refl<M: IdMap>(s: Seq<Impact>, m: &M)
    ensures
        impacts_same(s, s),
    decreases s,
{
    assert forall|i: int| 0 <= i < s.len() implies impact_same(#[trigger] s[i], s[i]) by {
        assert(decreases_to!(s => s[i]));
        lemma_impact_same_refl(s[i], m);
    }
}

proof fn lemma_impacts_ok_of_all<M: IdMap>(t: Seq<Impact>, m: &M)
    requires
        forall|i: int| 0 <= i < t.len() ==> #[trigger] impact_check(t[i], m) is Ok,
    ensures
        impacts_check(t, m) is Ok,
    decreases t.len(),
{
    if t.len() > 0 {
        assert forall|i: int| 0 <= i < t.drop_last().len() implies #[trigger] impact_check(t.drop_last()[i], m) is Ok by {
            assert(t.drop_last()[i] == t[i]);
        }
        lemma_impacts_ok_of_all(t.drop_last(), m);
        assert(impact_check(t[t.len() - 1], m) is Ok);
    }
}

proof fn lemma_impacts_lands<M1: IdMap, M2: IdMap>(s: Seq<Impact>, m1: &M1, m2: &M2, t: Seq<Impact>)
    requires
        lands_in(m1, m2),
        impacts_remaps(s, m1, t),
    ensures
        impacts_check(t, m2) is Ok,
    decreases s,
{
    assert forall|i: int| 0 <= i < t.len() implies #[trigger] impact_check(t[i], m2) is Ok by {
        assert(decreases_to!(s => s[i]));
        lemma_impact_lands(s[i], m1, m2, t[i]);
    }
    lemma_impacts_ok_of_all(t, m2);
}

proof fn lemma_impacts_fixed<M1: IdMap, M2: IdMap>(s: Seq<Impact>, m1: &M1, m2: &M2, a: Seq<Impact>, b: Seq<Impact>)
    requires
        fixes_outputs(m1, m2),
        impacts_remaps(s, m1, a),
        impacts_remaps(a, m2, b),
    ensures
        impacts_same(a, b),
    decreases s,
{
    assert forall|i: int| 0 <= i < a.len() implies impact_same(#[trigger] a[i], b[i]) by {
        assert(decreases_to!(s => s[i]));
        lemma_impact_fixed(s[i], m1, m2, a[i], b[i]);
    }
}

proof fn lemma_impacts_compose<M1: IdMap, M2: IdMap, M12: IdMap>(s: Seq<Impact>, m1: &M1, m2: &M2, m12: &M12, a: Seq<Impact>, b: Seq<Impact>)
    requires
        composes(m1, m2, m12),
        impacts_remaps(s, m1, a),
        impacts_remaps(a, m2, b),
    ensures
        impacts_remaps(s, m12, b),
    decreases s,
{
    assert forall|i: int| 0 <= i < s.len() implies impact_remaps(#[trigger] s[i], m12, b[i]) by {
        assert(decreases_to!(s => s[i]));
        lemma_impact_compose(s[i], m1, m2, m12, a[i], b[i]);
    }
}

proof fn lemma_impacts_stable<M: IdMap>(s: Seq<Impact>, m: &M, a: Seq<Impact>, b: Seq<Impact>)
    requires
        settles(m),
        impacts_remaps(s, m, a),
        impacts_remaps(a, m, b),
    ensures
        impacts_same(a, b),
    decreases s,
{
    assert forall|i: int| 0 <= i < a.len() implies impact_same(#[trigger] a[i], b[i]) by {
        assert(decreases_to!(s => s[i]));
        lemma_impact_stable(s[i], m, a[i], b[i]);
    }
}

/// The first error the walk over a sequence of `Widget` meets, in order.
pub open spec fn widgets_check<M: IdMap>(s: Seq<Widget>, m: &M) -> Result<(), M::Error>
    decreases s,
{
    if s.len() == 0 {
        Ok(())
    } else {
        then(widgets_check(s.drop_last(), m), widget_check(s.last(), m))
    }
}

/// Whether `t` is `s` with every interned handle translated through `m`.
pub open spec fn widgets_remaps<M: IdMap>(s: Seq<Widget>, m: &M, t: Seq<Widget>) -> bool
    decreases s,
{
    s.len() == t.len() && forall|i: int| 0 <= i < s.len() ==> widget_remaps(#[trigger] s[i], m, t[i])
}

/// Whether `s` and `t` hold the same contents.
pub open spec fn widgets_same(s: Seq<Widget>, t: Seq<Widget>) -> bool
    decreases s,
{
    s.len() == t.len() && forall|i: int| 0 <= i < s.len() ==> widget_same(#[trigger] s[i], t[i])
}

/// Whether `t` is `s` after a walk through `m` that stopped at its first
/// error: the elements before the one that failed translated, that one walked
/// likewise, the ones after untouched.
pub open spec fn widgets_walked<M: IdMap>(s: Seq<Widget>, m: &M, t: Seq<Widget>) -> bool
    decreases s,
{
    s.len() == t.len() && forall|i: int|
        #![trigger s[i]]
        0 <= i < s.len() ==> {
            &&& (widgets_check(s.take(i), m) is Ok && widget_check(s[i], m) is Ok) ==> widget_remaps(s[i], m, t[i])
            &&& (widgets_check(s.take(i), m) is Ok && widget_check(s[i], m) is Err) ==> widget_walked(s[i], m, t[i])
            &&& widgets_check(s.take(i), m) is Err ==> t[i] == s[i]
        }
}

/// Once a prefix of the walk passes, every shorter prefix and every element
/// in it passes.
proof fn lemma_widgets_prefix_ok<M: IdMap>(s: Seq<Widget>, m: &M, i: int, j: int)
    requires
        0 <= j < i <= s.len(),
        widgets_check(s.take(i), m) is Ok,
    ensures
        widgets_check(s.take(j), m) is Ok,
        widget_check(s[j], m) is Ok,
{
    if widgets_check(s.take(j + 1), m) is Err {
        assert(s.take(i).take(j + 1) =~= s.take(j + 1));
        lemma_widgets_err(s.take(i), m, j + 1);
    }
    assert(s.take(j + 1).drop_last() =~= s.take(j));
    assert(s.take(j + 1).last() == s[j]);
}

/// A walk that stopped at element `i`: translated before it, `i` walked, the
/// rest untouched.
proof fn lemma_widgets_walked_at<M: IdMap>(s: Seq<Widget>, m: &M, i: int, t: Seq<Widget>)
    requires
        0 <= i < s.len(),
        t.len() == s.len(),
        widgets_check(s.take(i), m) is Ok,
        widget_check(s[i], m) is Err,
        forall|j: int| 0 <= j < i ==> widget_remaps(#[trigger] s[j], m, t[j]),
        widget_walked(s[i], m, t[i]),
        forall|j: int| i < j < s.len() ==> #[trigger] t[j] == s[j],
    ensures
        widgets_walked(s, m, t),
{
    lemma_widgets_err_after(s, m, i);
    assert forall|j: int| 0 <= j < s.len() implies {
        &&& (widgets_check(s.take(j), m) is Ok && widget_check(#[trigger] s[j], m) is Ok) ==> widget_remaps(s[j], m, t[j])
        &&& (widgets_check(s.take(j), m) is Ok && widget_check(s[j], m) is Err) ==> widget_walked(s[j], m, t[j])
        &&& widgets_check(s.take(j), m) is Err ==> t[j] == s[j]
    } by {
        if j < i {
            lemma_widgets_prefix_ok(s, m, i, j);
        } else if j > i {
            assert(widgets_check(s.take(j), m) is Err);
        }
    }
}

proof fn lemma_widgets_err_after<M: IdMap>(s: Seq<Widget>, m: &M, i: int)
    requires
        0 <= i < s.len(),
        widgets_check(s.take(i), m) is Ok,
        widget_check(s[i], m) is Err,
    ensures
        forall|j: int| i < j <= s.len() ==> #[trigger] widgets_check(s.take(j), m) is Err,
{
    assert(s.take(i + 1).drop_last() =~= s.take(i));
    assert forall|j: int| i < j <= s.len() implies #[trigger] widgets_check(s.take(j), m) is Err by {
        assert(s.take(j).take(i + 1) =~= s.take(i + 1));
        lemma_widgets_err(s.take(j), m, i + 1);
    }
}

proof fn lemma_widgets_prefix<M: IdMap>(s: Seq<Widget>, m: &M, i: int)
    requires
        0 <= i < s.len(),
        widgets_check(s.take(i), m) is Ok,
    ensures
        widgets_check(s.take(i + 1), m) == then(widgets_check(s.take(i), m), widget_check(s[i], m)),
{
    assert(s.take(i + 1).drop_last() =~= s.take(i));
}

proof fn lemma_widgets_err<M: IdMap>(s: Seq<Widget>, m: &M, k: int)
    requires
        0 <= k <= s.len(),
        widgets_check(s.take(k), m) is Err,
    ensures
        widgets_check(s, m) == widgets_check(s.take(k), m),
    decreases s.len() - k,
{
    if k < s.len() {
        assert(s.take(k + 1).drop_last() =~= s.take(k));
        lemma_widgets_err(s, m, k + 1);
    } else {
        assert(s.take(k) =~= s);
    }
}

/// Translate every interned handle in every element of `v` through `m`, in
/// order, stopping at the map's first error.
#[verifier::rlimit(40)]
pub fn remap_widgets<M: IdMap>(v: &mut Vec<Widget>, m: &M) -> (r: Result<(), M::Error>)
    ensures
        r == widgets_check(old(v)@, m),
        r is Ok ==> widgets_remaps(old(v)@, m, final(v)@),
        r is Err ==> widgets_walked(old(v)@, m, final(v)@),
    decreases *old(v),
{
    let ghost orig = *v;
    let n = v.len();
    let mut i: usize = 0;
    assert(orig@.take(0) =~= Seq::<Widget>::empty());
    while i < n
        invariant
            orig == *old(v),
            n == v@.len(),
            v@.len() == orig@.len(),
            i <= n,
            widgets_check(orig@.take(i as int), m) is Ok,
            forall|j: int| i <= j < n ==> v@[j] == orig@[j],
            forall|j: int| 0 <= j < i ==> widget_remaps(#[trigger] orig@[j], m, v@[j]),
        decreases n - i,
    {
        proof {
            assert(decreases_to!(orig => orig@));
            assert(decreases_to!(orig@ => orig@[i as int]));
                    lemma_widgets_prefix(orig@, m, i as int);
        }
        let r = remap_widget(&mut v[i], m);
        if r.is_err() {
            proof {
                lemma_widgets_err(orig@, m, i + 1);
                lemma_widgets_walked_at(orig@, m, i as int, v@);
            }
            return r;
        }
        i = i + 1;
    }
    proof {
        assert(orig@.take(n as int) =~= orig@);
        lemma_unit_ok(widgets_check(orig@, m));
    }
    Ok(())
}

proof fn lemma_widgets_total<M: IdMap>(s: Seq<Widget>, m: &M)
    requires
        total(m),
    ensures
        widgets_check(s, m) is Ok,
    decreases s,
{
    if s.len() > 0 {
        lemma_widgets_total(s.drop_last(), m);
        lemma_widget_total(s.last(), m);
    }
}

proof fn lemma_widgets_identity<M: IdMap>(s: Seq<Widget>, m: &M, t: Seq<Widget>)
    requires
        keeps_ids(m),
        widgets_remaps(s, m, t),
    ensures
        widgets_same(s, t),
    decreases s,
{
    assert forall|i: int| 0 <= i < s.len() implies widget_same(#[trigger] s[i], t[i]) by {
        assert(decreases_to!(s => s[i]));
        lemma_widget_identity(s[i], m, t[i]);
    }
}

proof fn lemma_widgets_walk_keeps<M: IdMap>(s: Seq<Widget>, m: &M, t: Seq<Widget>)
    requires
        keeps_ids(m),
        widgets_walked(s, m, t),
    ensures
        widgets_same(s, t),
    decreases s,
{
    assert forall|i: int| 0 <= i < s.len() implies widget_same(#[trigger] s[i], t[i]) by {
        assert(decreases_to!(s => s[i]));
        if widgets_check(s.take(i), m) is Ok {
            if widget_check(s[i], m) is Ok {
                lemma_widget_identity(s[i], m, t[i]);
            } else {
                lemma_widget_walk_keeps(s[i], m, t[i]);
            }
        } else {
            lemma_widget_same_refl(s[i], m);
        }
    }
}

proof fn lemma_widgets_same_refl<M: IdMap>(s: Seq<Widget>, m: &M)
    ensures
        widgets_same(s, s),
    decreases s,
{
    assert forall|i: int| 0 <= i < s.len() implies widget_same(#[trigger] s[i], s[i]) by {
        assert(decreases_to!(s => s[i]));
        lemma_widget_same_refl(s[i], m);
    }
}

proof fn lemma_widgets_ok_of_all<M: IdMap>(t: Seq<Widget>, m: &M)
    requires
        forall|i: int| 0 <= i < t.len() ==> #[trigger] widget_check(t[i], m) is Ok,
    ensures
        widgets_check(t, m) is Ok,
    decreases t.len(),
{
    if t.len() > 0 {
        assert forall|i: int| 0 <= i < t.drop_last().len() implies #[trigger] widget_check(t.drop_last()[i], m) is Ok by {
            assert(t.drop_last()[i] == t[i]);
        }
        lemma_widgets_ok_of_all(t.drop_last(), m);
        assert(widget_check(t[t.len() - 1], m) is Ok);
    }
}

proof fn lemma_widgets_lands<M1: IdMap, M2: IdMap>(s: Seq<Widget>, m1: &M1, m2: &M2, t: Seq<Widget>)
    requires
        lands_in(m1, m2),
        widgets_remaps(s, m1, t),
    ensures
        widgets_check(t, m2) is Ok,
    decreases s,
{
    assert forall|i: int| 0 <= i < t.len() implies #[trigger] widget_check(t[i], m2) is Ok by {
        assert(decreases_to!(s => s[i]));
        lemma_widget_lands(s[i], m1, m2, t[i]);
    }
    lemma_widgets_ok_of_all(t, m2);
}

proof fn lemma_widgets_fixed<M1: IdMap, M2: IdMap>(s: Seq<Widget>, m1: &M1, m2: &M2, a: Seq<Widget>, b: Seq<Widget>)
    requires
        fixes_outputs(m1, m2),
        widgets_remaps(s, m1, a),
        widgets_remaps(a, m2, b),
    ensures
        widgets_same(a, b),
    decreases s,
{
    assert forall|i: int| 0 <= i < a.len() implies widget_same(#[trigger] a[i], b[i]) by {
        assert(decreases_to!(s => s[i]));
        lemma_widget_fixed(s[i], m1, m2, a[i], b[i]);
    }
}

proof fn lemma_widgets_compose<M1: IdMap, M2: IdMap, M12: IdMap>(s: Seq<Widget>, m1: &M1, m2: &M2, m12: &M12, a: Seq<Widget>, b: Seq<Widget>)
    requires
        composes(m1, m2, m12),
        widgets_remaps(s, m1, a),
        widgets_remaps(a, m2, b),
    ensures
        widgets_remaps(s, m12, b),
    decreases s,
{
    assert forall|i: int| 0 <= i < s.len() implies widget_remaps(#[trigger] s[i], m12, b[i]) by {
        assert(decreases_to!(s => s[i]));
        lemma_widget_compose(s[i], m1, m2, m12, a[i], b[i]);
    }
}

proof fn lemma_widgets_stable<M: IdMap>(s: Seq<Widget>, m: &M, a: Seq<Widget>, b: Seq<Widget>)
    requires
        settles(m),
        widgets_remaps(s, m, a),
        widgets_remaps(a, m, b),
    ensures
        widgets_same(a, b),
    decreases s,
{
    assert forall|i: int| 0 <= i < a.len() implies widget_same(#[trigger] a[i], b[i]) by {
        assert(decreases_to!(s => s[i]));
        lemma_widget_stable(s[i], m, a[i], b[i]);
    }
}

impl Contents for Var {
    open spec fn same_as(&self, other: Self) -> bool {
        let x = *self;
        let y = other;
        match (x, y) {
            (Var::Level, Var::Level) => true,
            (Var::MaxHp(x_0), Var::MaxHp(y_0)) => x_0 == y_0,
            (Var::CurHp(x_0), Var::CurHp(y_0)) => x_0 == y_0,
            (Var::MissingHp(x_0), Var::MissingHp(y_0)) => x_0 == y_0,
            (Var::HpRatio(x_0), Var::HpRatio(y_0)) => x_0 == y_0,
            (Var::MissingHpRatio(x_0), Var::MissingHpRatio(y_0)) => x_0 == y_0,
            (Var::Stat(x_0, x_1), Var::Stat(y_0, y_1)) => x_0 == y_0 && x_1 == y_1,
            (Var::Resource(x_0, x_1), Var::Resource(y_0, y_1)) => x_0 == y_0 && x_1 == y_1,
            (Var::StackCount(x_0, x_1), Var::StackCount(y_0, y_1)) => x_0 == y_0 && x_1 == y_1,
            (Var::BuffStacks(x_0, x_1), Var::BuffStacks(y_0, y_1)) => x_0 == y_0 && x_1 == y_1,
            (Var::ChargesOf(x_0, x_1), Var::ChargesOf(y_0, y_1)) => x_0 == y_0 && x_1 == y_1,
            (Var::CooldownOf(x_0, x_1), Var::CooldownOf(y_0, y_1)) => x_0 == y_0 && x_1 == y_1,
            (Var::AllyCount, Var::AllyCount) => true,
            (Var::EnemyCount, Var::EnemyCount) => true,
            (Var::DistanceToTarget, Var::DistanceToTarget) => true,
            (Var::ChannelProgress, Var::ChannelProgress) => true,
            (Var::Rand01, Var::Rand01) => true,
            (Var::StackGain(x_0, x_1), Var::StackGain(y_0, y_1)) => x_0 == y_0 && x_1 == y_1,
            (Var::BuffStacksFrom(x_0, x_1, x_2), Var::BuffStacksFrom(y_0, y_1, y_2)) => x_0 == y_0 && x_1 == y_1 && x_2 == y_2,
            (Var::EventMagnitude, Var::EventMagnitude) => true,
            (Var::LoopIndex, Var::LoopIndex) => true,
            _ => false,
        }
    }
}

impl<M: IdMap> RemapIds<M> for Var {
    open spec fn remap_check(&self, m: &M) -> Result<(), M::Error> {
        let x = *self;
        match x {
            Var::Level => Ok(()),
            Var::MaxHp(x_0) => Ok(()),
            Var::CurHp(x_0) => Ok(()),
            Var::MissingHp(x_0) => Ok(()),
            Var::HpRatio(x_0) => Ok(()),
            Var::MissingHpRatio(x_0) => Ok(()),
            Var::Stat(x_0, x_1) => then(leaf(m.stat_spec(x_0)), Ok(())),
            Var::Resource(x_0, x_1) => then(leaf(m.resource_spec(x_0)), Ok(())),
            Var::StackCount(x_0, x_1) => then(leaf(m.stack_spec(x_0)), Ok(())),
            Var::BuffStacks(x_0, x_1) => then(leaf(m.buff_spec(x_0)), Ok(())),
            Var::ChargesOf(x_0, x_1) => then(leaf(m.slot_ref_spec(x_0)), Ok(())),
            Var::CooldownOf(x_0, x_1) => then(leaf(m.slot_ref_spec(x_0)), Ok(())),
            Var::AllyCount => Ok(()),
            Var::EnemyCount => Ok(()),
            Var::DistanceToTarget => Ok(()),
            Var::ChannelProgress => Ok(()),
            Var::Rand01 => Ok(()),
            Var::StackGain(x_0, x_1) => then(leaf(m.stack_spec(x_0)), Ok(())),
            Var::BuffStacksFrom(x_0, x_1, x_2) => then(leaf(m.buff_spec(x_0)), Ok(())),
            Var::EventMagnitude => Ok(()),
            Var::LoopIndex => Ok(()),
        }
    }

    open spec fn remaps_to(&self, m: &M, new: Self) -> bool {
        let x = *self;
        let y = new;
        match (x, y) {
            (Var::Level, Var::Level) => true,
            (Var::MaxHp(x_0), Var::MaxHp(y_0)) => x_0 == y_0,
            (Var::CurHp(x_0), Var::CurHp(y_0)) => x_0 == y_0,
            (Var::MissingHp(x_0), Var::MissingHp(y_0)) => x_0 == y_0,
            (Var::HpRatio(x_0), Var::HpRatio(y_0)) => x_0 == y_0,
            (Var::MissingHpRatio(x_0), Var::MissingHpRatio(y_0)) => x_0 == y_0,
            (Var::Stat(x_0, x_1), Var::Stat(y_0, y_1)) => m.stat_spec(x_0) == Ok::<StatId, M::Error>(y_0) && x_1 == y_1,
            (Var::Resource(x_0, x_1), Var::Resource(y_0, y_1)) => m.resource_spec(x_0) == Ok::<ResourceId, M::Error>(y_0) && x_1 == y_1,
            (Var::StackCount(x_0, x_1), Var::StackCount(y_0, y_1)) => m.stack_spec(x_0) == Ok::<StackId, M::Error>(y_0) && x_1 == y_1,
            (Var::BuffStacks(x_0, x_1), Var::BuffStacks(y_0, y_1)) => m.buff_spec(x_0) == Ok::<BuffId, M::Error>(y_0) && x_1 == y_1,
            (Var::ChargesOf(x_0, x_1), Var::ChargesOf(y_0, y_1)) => m.slot_ref_spec(x_0) == Ok::<SlotRef, M::Error>(y_0) && x_1 == y_1,
            (Var::CooldownOf(x_0, x_1), Var::CooldownOf(y_0, y_1)) => m.slot_ref_spec(x_0) == Ok::<SlotRef, M::Error>(y_0) && x_1 == y_1,
            (Var::AllyCount, Var::AllyCount) => true,
            (Var::EnemyCount, Var::EnemyCount) => true,
            (Var::DistanceToTarget, Var::DistanceToTarget) => true,
            (Var::ChannelProgress, Var::ChannelProgress) => true,
            (Var::Rand01, Var::Rand01) => true,
            (Var::StackGain(x_0, x_1), Var::StackGain(y_0, y_1)) => m.stack_spec(x_0) == Ok::<StackId, M::Error>(y_0) && x_1 == y_1,
            (Var::BuffStacksFrom(x_0, x_1, x_2), Var::BuffStacksFrom(y_0, y_1, y_2)) => m.buff_spec(x_0) == Ok::<BuffId, M::Error>(y_0) && x_1 == y_1 && x_2 == y_2,
            (Var::EventMagnitude, Var::EventMagnitude) => true,
            (Var::LoopIndex, Var::LoopIndex) => true,
            _ => false,
        }
    }

    open spec fn walked_to(&self, m: &M, new: Self) -> bool {
        let x = *self;
        let y = new;
        match (x, y) {
            (Var::Level, Var::Level) => true,
            (Var::MaxHp(x_0), Var::MaxHp(y_0)) => x_0 == y_0 && true,
            (Var::CurHp(x_0), Var::CurHp(y_0)) => x_0 == y_0 && true,
            (Var::MissingHp(x_0), Var::MissingHp(y_0)) => x_0 == y_0 && true,
            (Var::HpRatio(x_0), Var::HpRatio(y_0)) => x_0 == y_0 && true,
            (Var::MissingHpRatio(x_0), Var::MissingHpRatio(y_0)) => x_0 == y_0 && true,
            (Var::Stat(x_0, x_1), Var::Stat(y_0, y_1)) => x_1 == y_1 && (if (leaf(m.stat_spec(x_0))) is Err { x_0 == y_0 } else { m.stat_spec(x_0) == Ok::<StatId, M::Error>(y_0) && true }),
            (Var::Resource(x_0, x_1), Var::Resource(y_0, y_1)) => x_1 == y_1 && (if (leaf(m.resource_spec(x_0))) is Err { x_0 == y_0 } else { m.resource_spec(x_0) == Ok::<ResourceId, M::Error>(y_0) && true }),
            (Var::StackCount(x_0, x_1), Var::StackCount(y_0, y_1)) => x_1 == y_1 && (if (leaf(m.stack_spec(x_0))) is Err { x_0 == y_0 } else { m.stack_spec(x_0) == Ok::<StackId, M::Error>(y_0) && true }),
            (Var::BuffStacks(x_0, x_1), Var::BuffStacks(y_0, y_1)) => x_1 == y_1 && (if (leaf(m.buff_spec(x_0))) is Err { x_0 == y_0 } else { m.buff_spec(x_0) == Ok::<BuffId, M::Error>(y_0) && true }),
            (Var::ChargesOf(x_0, x_1), Var::ChargesOf(y_0, y_1)) => x_1 == y_1 && (if (leaf(m.slot_ref_spec(x_0))) is Err { x_0 == y_0 } else { m.slot_ref_spec(x_0) == Ok::<SlotRef, M::Error>(y_0) && true }),
            (Var::CooldownOf(x_0, x_1), Var::CooldownOf(y_0, y_1)) => x_1 == y_1 && (if (leaf(m.slot_ref_spec(x_0))) is Err { x_0 == y_0 } else { m.slot_ref_spec(x_0) == Ok::<SlotRef, M::Error>(y_0) && true }),
            (Var::AllyCount, Var::AllyCount) => true,
            (Var::EnemyCount, Var::EnemyCount) => true,
            (Var::DistanceToTarget, Var::DistanceToTarget) => true,
            (Var::ChannelProgress, Var::ChannelProgress) => true,
            (Var::Rand01, Var::Rand01) => true,
            (Var::StackGain(x_0, x_1), Var::StackGain(y_0, y_1)) => x_1 == y_1 && (if (leaf(m.stack_spec(x_0))) is Err { x_0 == y_0 } else { m.stack_spec(x_0) == Ok::<StackId, M::Error>(y_0) && true }),
            (Var::BuffStacksFrom(x_0, x_1, x_2), Var::BuffStacksFrom(y_0, y_1, y_2)) => x_1 == y_1 && x_2 == y_2 && (if (leaf(m.buff_spec(x_0))) is Err { x_0 == y_0 } else { m.buff_spec(x_0) == Ok::<BuffId, M::Error>(y_0) && true }),
            (Var::EventMagnitude, Var::EventMagnitude) => true,
            (Var::LoopIndex, Var::LoopIndex) => true,
            _ => false,
        }
    }

    #[verifier::rlimit(60)]
    #[verifier::spinoff_prover]
    fn remap_ids(&mut self, m: &M) -> (r: Result<(), M::Error>) {
        let x = self;
        match x {
            Var::Level => {
            },
            Var::MaxHp(_) => {
            },
            Var::CurHp(_) => {
            },
            Var::MissingHp(_) => {
            },
            Var::HpRatio(_) => {
            },
            Var::MissingHpRatio(_) => {
            },
            Var::Stat(x_0, _) => {
                match m.stat(*x_0) {
                    Ok(v) => { *x_0 = v; },
                    Err(e) => { return Err(e); },
                }
            },
            Var::Resource(x_0, _) => {
                match m.resource(*x_0) {
                    Ok(v) => { *x_0 = v; },
                    Err(e) => { return Err(e); },
                }
            },
            Var::StackCount(x_0, _) => {
                match m.stack(*x_0) {
                    Ok(v) => { *x_0 = v; },
                    Err(e) => { return Err(e); },
                }
            },
            Var::BuffStacks(x_0, _) => {
                match m.buff(*x_0) {
                    Ok(v) => { *x_0 = v; },
                    Err(e) => { return Err(e); },
                }
            },
            Var::ChargesOf(x_0, _) => {
                match m.slot_ref(*x_0) {
                    Ok(v) => { *x_0 = v; },
                    Err(e) => { return Err(e); },
                }
            },
            Var::CooldownOf(x_0, _) => {
                match m.slot_ref(*x_0) {
                    Ok(v) => { *x_0 = v; },
                    Err(e) => { return Err(e); },
                }
            },
            Var::AllyCount => {
            },
            Var::EnemyCount => {
            },
            Var::DistanceToTarget => {
            },
            Var::ChannelProgress => {
            },
            Var::Rand01 => {
            },
            Var::StackGain(x_0, _) => {
                match m.stack(*x_0) {
                    Ok(v) => { *x_0 = v; },
                    Err(e) => { return Err(e); },
                }
            },
            Var::BuffStacksFrom(x_0, _, _) => {
                match m.buff(*x_0) {
                    Ok(v) => { *x_0 = v; },
                    Err(e) => { return Err(e); },
                }
            },
            Var::EventMagnitude => {
            },
            Var::LoopIndex => {
            },
        }
        Ok(())
    }

    proof fn lemma_total(&self, m: &M) {
        let x = *self;
        match x {
            Var::Level => {  },
            Var::MaxHp(x_0) => {  },
            Var::CurHp(x_0) => {  },
            Var::MissingHp(x_0) => {  },
            Var::HpRatio(x_0) => {  },
            Var::MissingHpRatio(x_0) => {  },
            Var::Stat(x_0, x_1) => {  },
            Var::Resource(x_0, x_1) => {  },
            Var::StackCount(x_0, x_1) => {  },
            Var::BuffStacks(x_0, x_1) => {  },
            Var::ChargesOf(x_0, x_1) => {  },
            Var::CooldownOf(x_0, x_1) => {  },
            Var::AllyCount => {  },
            Var::EnemyCount => {  },
            Var::DistanceToTarget => {  },
            Var::ChannelProgress => {  },
            Var::Rand01 => {  },
            Var::StackGain(x_0, x_1) => {  },
            Var::BuffStacksFrom(x_0, x_1, x_2) => {  },
            Var::EventMagnitude => {  },
            Var::LoopIndex => {  },
        }
    }

    proof fn lemma_identity(&self, m: &M, new: Self) {
        let x = *self;
        let y = new;
        match (x, y) {
            (Var::Level, Var::Level) => {  },
            (Var::MaxHp(x_0), Var::MaxHp(y_0)) => {  },
            (Var::CurHp(x_0), Var::CurHp(y_0)) => {  },
            (Var::MissingHp(x_0), Var::MissingHp(y_0)) => {  },
            (Var::HpRatio(x_0), Var::HpRatio(y_0)) => {  },
            (Var::MissingHpRatio(x_0), Var::MissingHpRatio(y_0)) => {  },
            (Var::Stat(x_0, x_1), Var::Stat(y_0, y_1)) => {  },
            (Var::Resource(x_0, x_1), Var::Resource(y_0, y_1)) => {  },
            (Var::StackCount(x_0, x_1), Var::StackCount(y_0, y_1)) => {  },
            (Var::BuffStacks(x_0, x_1), Var::BuffStacks(y_0, y_1)) => {  },
            (Var::ChargesOf(x_0, x_1), Var::ChargesOf(y_0, y_1)) => {  },
            (Var::CooldownOf(x_0, x_1), Var::CooldownOf(y_0, y_1)) => {  },
            (Var::AllyCount, Var::AllyCount) => {  },
            (Var::EnemyCount, Var::EnemyCount) => {  },
            (Var::DistanceToTarget, Var::DistanceToTarget) => {  },
            (Var::ChannelProgress, Var::ChannelProgress) => {  },
            (Var::Rand01, Var::Rand01) => {  },
            (Var::StackGain(x_0, x_1), Var::StackGain(y_0, y_1)) => {  },
            (Var::BuffStacksFrom(x_0, x_1, x_2), Var::BuffStacksFrom(y_0, y_1, y_2)) => {  },
            (Var::EventMagnitude, Var::EventMagnitude) => {  },
            (Var::LoopIndex, Var::LoopIndex) => {  },
            _ => {},
        }
    }

    proof fn lemma_stable(&self, m: &M, a: Self, b: Self) {
        let x = *self;
        match (x, a, b) {
            (Var::Level, Var::Level, Var::Level) => {  },
            (Var::MaxHp(x_0), Var::MaxHp(a_0), Var::MaxHp(b_0)) => {  },
            (Var::CurHp(x_0), Var::CurHp(a_0), Var::CurHp(b_0)) => {  },
            (Var::MissingHp(x_0), Var::MissingHp(a_0), Var::MissingHp(b_0)) => {  },
            (Var::HpRatio(x_0), Var::HpRatio(a_0), Var::HpRatio(b_0)) => {  },
            (Var::MissingHpRatio(x_0), Var::MissingHpRatio(a_0), Var::MissingHpRatio(b_0)) => {  },
            (Var::Stat(x_0, x_1), Var::Stat(a_0, a_1), Var::Stat(b_0, b_1)) => {  },
            (Var::Resource(x_0, x_1), Var::Resource(a_0, a_1), Var::Resource(b_0, b_1)) => {  },
            (Var::StackCount(x_0, x_1), Var::StackCount(a_0, a_1), Var::StackCount(b_0, b_1)) => {  },
            (Var::BuffStacks(x_0, x_1), Var::BuffStacks(a_0, a_1), Var::BuffStacks(b_0, b_1)) => {  },
            (Var::ChargesOf(x_0, x_1), Var::ChargesOf(a_0, a_1), Var::ChargesOf(b_0, b_1)) => {  },
            (Var::CooldownOf(x_0, x_1), Var::CooldownOf(a_0, a_1), Var::CooldownOf(b_0, b_1)) => {  },
            (Var::AllyCount, Var::AllyCount, Var::AllyCount) => {  },
            (Var::EnemyCount, Var::EnemyCount, Var::EnemyCount) => {  },
            (Var::DistanceToTarget, Var::DistanceToTarget, Var::DistanceToTarget) => {  },
            (Var::ChannelProgress, Var::ChannelProgress, Var::ChannelProgress) => {  },
            (Var::Rand01, Var::Rand01, Var::Rand01) => {  },
            (Var::StackGain(x_0, x_1), Var::StackGain(a_0, a_1), Var::StackGain(b_0, b_1)) => {  },
            (Var::BuffStacksFrom(x_0, x_1, x_2), Var::BuffStacksFrom(a_0, a_1, a_2), Var::BuffStacksFrom(b_0, b_1, b_2)) => {  },
            (Var::EventMagnitude, Var::EventMagnitude, Var::EventMagnitude) => {  },
            (Var::LoopIndex, Var::LoopIndex, Var::LoopIndex) => {  },
            _ => {},
        }
    }

    #[verifier::rlimit(60)]
    #[verifier::spinoff_prover]
    proof fn lemma_walk_keeps(&self, m: &M, new: Self) {
        let x = *self;
        let y = new;
        match (x, y) {
            (Var::Level, Var::Level) => {  },
            (Var::MaxHp(x_0), Var::MaxHp(y_0)) => {  },
            (Var::CurHp(x_0), Var::CurHp(y_0)) => {  },
            (Var::MissingHp(x_0), Var::MissingHp(y_0)) => {  },
            (Var::HpRatio(x_0), Var::HpRatio(y_0)) => {  },
            (Var::MissingHpRatio(x_0), Var::MissingHpRatio(y_0)) => {  },
            (Var::Stat(x_0, x_1), Var::Stat(y_0, y_1)) => { if (leaf(m.stat_spec(x_0))) is Err {  } else {   } },
            (Var::Resource(x_0, x_1), Var::Resource(y_0, y_1)) => { if (leaf(m.resource_spec(x_0))) is Err {  } else {   } },
            (Var::StackCount(x_0, x_1), Var::StackCount(y_0, y_1)) => { if (leaf(m.stack_spec(x_0))) is Err {  } else {   } },
            (Var::BuffStacks(x_0, x_1), Var::BuffStacks(y_0, y_1)) => { if (leaf(m.buff_spec(x_0))) is Err {  } else {   } },
            (Var::ChargesOf(x_0, x_1), Var::ChargesOf(y_0, y_1)) => { if (leaf(m.slot_ref_spec(x_0))) is Err {  } else {   } },
            (Var::CooldownOf(x_0, x_1), Var::CooldownOf(y_0, y_1)) => { if (leaf(m.slot_ref_spec(x_0))) is Err {  } else {   } },
            (Var::AllyCount, Var::AllyCount) => {  },
            (Var::EnemyCount, Var::EnemyCount) => {  },
            (Var::DistanceToTarget, Var::DistanceToTarget) => {  },
            (Var::ChannelProgress, Var::ChannelProgress) => {  },
            (Var::Rand01, Var::Rand01) => {  },
            (Var::StackGain(x_0, x_1), Var::StackGain(y_0, y_1)) => { if (leaf(m.stack_spec(x_0))) is Err {  } else {   } },
            (Var::BuffStacksFrom(x_0, x_1, x_2), Var::BuffStacksFrom(y_0, y_1, y_2)) => { if (leaf(m.buff_spec(x_0))) is Err {  } else {   } },
            (Var::EventMagnitude, Var::EventMagnitude) => {  },
            (Var::LoopIndex, Var::LoopIndex) => {  },
            _ => {},
        }
    }

    proof fn lemma_same_refl(&self, m: &M) {
        let x = *self;
        match x {
            Var::Level => {  },
            Var::MaxHp(x_0) => {  },
            Var::CurHp(x_0) => {  },
            Var::MissingHp(x_0) => {  },
            Var::HpRatio(x_0) => {  },
            Var::MissingHpRatio(x_0) => {  },
            Var::Stat(x_0, x_1) => {  },
            Var::Resource(x_0, x_1) => {  },
            Var::StackCount(x_0, x_1) => {  },
            Var::BuffStacks(x_0, x_1) => {  },
            Var::ChargesOf(x_0, x_1) => {  },
            Var::CooldownOf(x_0, x_1) => {  },
            Var::AllyCount => {  },
            Var::EnemyCount => {  },
            Var::DistanceToTarget => {  },
            Var::ChannelProgress => {  },
            Var::Rand01 => {  },
            Var::StackGain(x_0, x_1) => {  },
            Var::BuffStacksFrom(x_0, x_1, x_2) => {  },
            Var::EventMagnitude => {  },
            Var::LoopIndex => {  },
        }
    }
}

impl<M1: IdMap, M2: IdMap> RemapPair<M1, M2> for Var {
    proof fn lemma_lands(&self, m1: &M1, m2: &M2, a: Self) {
        let x = *self;
        match (x, a) {
            (Var::Level, Var::Level) => {  },
            (Var::MaxHp(x_0), Var::MaxHp(a_0)) => {  },
            (Var::CurHp(x_0), Var::CurHp(a_0)) => {  },
            (Var::MissingHp(x_0), Var::MissingHp(a_0)) => {  },
            (Var::HpRatio(x_0), Var::HpRatio(a_0)) => {  },
            (Var::MissingHpRatio(x_0), Var::MissingHpRatio(a_0)) => {  },
            (Var::Stat(x_0, x_1), Var::Stat(a_0, a_1)) => {  },
            (Var::Resource(x_0, x_1), Var::Resource(a_0, a_1)) => {  },
            (Var::StackCount(x_0, x_1), Var::StackCount(a_0, a_1)) => {  },
            (Var::BuffStacks(x_0, x_1), Var::BuffStacks(a_0, a_1)) => {  },
            (Var::ChargesOf(x_0, x_1), Var::ChargesOf(a_0, a_1)) => {  },
            (Var::CooldownOf(x_0, x_1), Var::CooldownOf(a_0, a_1)) => {  },
            (Var::AllyCount, Var::AllyCount) => {  },
            (Var::EnemyCount, Var::EnemyCount) => {  },
            (Var::DistanceToTarget, Var::DistanceToTarget) => {  },
            (Var::ChannelProgress, Var::ChannelProgress) => {  },
            (Var::Rand01, Var::Rand01) => {  },
            (Var::StackGain(x_0, x_1), Var::StackGain(a_0, a_1)) => {  },
            (Var::BuffStacksFrom(x_0, x_1, x_2), Var::BuffStacksFrom(a_0, a_1, a_2)) => {  },
            (Var::EventMagnitude, Var::EventMagnitude) => {  },
            (Var::LoopIndex, Var::LoopIndex) => {  },
            _ => {},
        }
    }

    proof fn lemma_fixed(&self, m1: &M1, m2: &M2, a: Self, b: Self) {
        let x = *self;
        match (x, a, b) {
            (Var::Level, Var::Level, Var::Level) => {  },
            (Var::MaxHp(x_0), Var::MaxHp(a_0), Var::MaxHp(b_0)) => {  },
            (Var::CurHp(x_0), Var::CurHp(a_0), Var::CurHp(b_0)) => {  },
            (Var::MissingHp(x_0), Var::MissingHp(a_0), Var::MissingHp(b_0)) => {  },
            (Var::HpRatio(x_0), Var::HpRatio(a_0), Var::HpRatio(b_0)) => {  },
            (Var::MissingHpRatio(x_0), Var::MissingHpRatio(a_0), Var::MissingHpRatio(b_0)) => {  },
            (Var::Stat(x_0, x_1), Var::Stat(a_0, a_1), Var::Stat(b_0, b_1)) => {  },
            (Var::Resource(x_0, x_1), Var::Resource(a_0, a_1), Var::Resource(b_0, b_1)) => {  },
            (Var::StackCount(x_0, x_1), Var::StackCount(a_0, a_1), Var::StackCount(b_0, b_1)) => {  },
            (Var::BuffStacks(x_0, x_1), Var::BuffStacks(a_0, a_1), Var::BuffStacks(b_0, b_1)) => {  },
            (Var::ChargesOf(x_0, x_1), Var::ChargesOf(a_0, a_1), Var::ChargesOf(b_0, b_1)) => {  },
            (Var::CooldownOf(x_0, x_1), Var::CooldownOf(a_0, a_1), Var::CooldownOf(b_0, b_1)) => {  },
            (Var::AllyCount, Var::AllyCount, Var::AllyCount) => {  },
            (Var::EnemyCount, Var::EnemyCount, Var::EnemyCount) => {  },
            (Var::DistanceToTarget, Var::DistanceToTarget, Var::DistanceToTarget) => {  },
            (Var::ChannelProgress, Var::ChannelProgress, Var::ChannelProgress) => {  },
            (Var::Rand01, Var::Rand01, Var::Rand01) => {  },
            (Var::StackGain(x_0, x_1), Var::StackGain(a_0, a_1), Var::StackGain(b_0, b_1)) => {  },
            (Var::BuffStacksFrom(x_0, x_1, x_2), Var::BuffStacksFrom(a_0, a_1, a_2), Var::BuffStacksFrom(b_0, b_1, b_2)) => {  },
            (Var::EventMagnitude, Var::EventMagnitude, Var::EventMagnitude) => {  },
            (Var::LoopIndex, Var::LoopIndex, Var::LoopIndex) => {  },
            _ => {},
        }
    }
}

impl<M1: IdMap, M2: IdMap, M12: IdMap> RemapCompose<M1, M2, M12> for Var {
    proof fn lemma_compose(&self, m1: &M1, m2: &M2, m12: &M12, a: Self, b: Self) {
        let x = *self;
        match (x, a, b) {
            (Var::Level, Var::Level, Var::Level) => {  },
            (Var::MaxHp(x_0), Var::MaxHp(a_0), Var::MaxHp(b_0)) => {  },
            (Var::CurHp(x_0), Var::CurHp(a_0), Var::CurHp(b_0)) => {  },
            (Var::MissingHp(x_0), Var::MissingHp(a_0), Var::MissingHp(b_0)) => {  },
            (Var::HpRatio(x_0), Var::HpRatio(a_0), Var::HpRatio(b_0)) => {  },
            (Var::MissingHpRatio(x_0), Var::MissingHpRatio(a_0), Var::MissingHpRatio(b_0)) => {  },
            (Var::Stat(x_0, x_1), Var::Stat(a_0, a_1), Var::Stat(b_0, b_1)) => {  },
            (Var::Resource(x_0, x_1), Var::Resource(a_0, a_1), Var::Resource(b_0, b_1)) => {  },
            (Var::StackCount(x_0, x_1), Var::StackCount(a_0, a_1), Var::StackCount(b_0, b_1)) => {  },
            (Var::BuffStacks(x_0, x_1), Var::BuffStacks(a_0, a_1), Var::BuffStacks(b_0, b_1)) => {  },
            (Var::ChargesOf(x_0, x_1), Var::ChargesOf(a_0, a_1), Var::ChargesOf(b_0, b_1)) => {  },
            (Var::CooldownOf(x_0, x_1), Var::CooldownOf(a_0, a_1), Var::CooldownOf(b_0, b_1)) => {  },
            (Var::AllyCount, Var::AllyCount, Var::AllyCount) => {  },
            (Var::EnemyCount, Var::EnemyCount, Var::EnemyCount) => {  },
            (Var::DistanceToTarget, Var::DistanceToTarget, Var::DistanceToTarget) => {  },
            (Var::ChannelProgress, Var::ChannelProgress, Var::ChannelProgress) => {  },
            (Var::Rand01, Var::Rand01, Var::Rand01) => {  },
            (Var::StackGain(x_0, x_1), Var::StackGain(a_0, a_1), Var::StackGain(b_0, b_1)) => {  },
            (Var::BuffStacksFrom(x_0, x_1, x_2), Var::BuffStacksFrom(a_0, a_1, a_2), Var::BuffStacksFrom(b_0, b_1, b_2)) => {  },
            (Var::EventMagnitude, Var::EventMagnitude, Var::EventMagnitude) => {  },
            (Var::LoopIndex, Var::LoopIndex, Var::LoopIndex) => {  },
            _ => {},
        }
    }
}

impl Contents for TargetFilter {
    open spec fn same_as(&self, other: Self) -> bool {
        let x = *self;
        let y = other;
        x.affiliation == y.affiliation
                && tags_same(x.require_tags@, y.require_tags@)
                && tags_same(x.exclude_tags@, y.exclude_tags@)
                && x.include_dead == y.include_dead
    }
}

impl<M: IdMap> RemapIds<M> for TargetFilter {
    open spec fn remap_check(&self, m: &M) -> Result<(), M::Error> {
        let x = *self;
        then(tags_check(x.require_tags@, m), tags_check(x.exclude_tags@, m))
    }

    open spec fn remaps_to(&self, m: &M, new: Self) -> bool {
        let x = *self;
        let y = new;
        x.affiliation == y.affiliation
                && tags_remaps(x.require_tags@, m, y.require_tags@)
                && tags_remaps(x.exclude_tags@, m, y.exclude_tags@)
                && x.include_dead == y.include_dead
    }

    open spec fn walked_to(&self, m: &M, new: Self) -> bool {
        let x = *self;
        let y = new;
        x.affiliation == y.affiliation && x.include_dead == y.include_dead && (if (tags_check(x.require_tags@, m)) is Err { tags_walked(x.require_tags@, m, y.require_tags@) && x.exclude_tags == y.exclude_tags } else { tags_remaps(x.require_tags@, m, y.require_tags@) && (if (tags_check(x.exclude_tags@, m)) is Err { tags_walked(x.exclude_tags@, m, y.exclude_tags@) } else { tags_remaps(x.exclude_tags@, m, y.exclude_tags@) && true }) })
    }

    #[verifier::rlimit(60)]
    #[verifier::spinoff_prover]
    fn remap_ids(&mut self, m: &M) -> (r: Result<(), M::Error>) {
        let x = self;
        let r = remap_tags(&mut x.require_tags, m);
        if r.is_err() {
            return r;
        }
        let r = remap_tags(&mut x.exclude_tags, m);
        if r.is_err() {
            return r;
        }
        Ok(())
    }

    proof fn lemma_total(&self, m: &M) {
        let x = *self;
        lemma_tags_total(x.require_tags@, m);
        lemma_tags_total(x.exclude_tags@, m);
    }

    proof fn lemma_identity(&self, m: &M, new: Self) {
        let x = *self;
        let y = new;
        lemma_tags_identity(x.require_tags@, m, y.require_tags@);
        lemma_tags_identity(x.exclude_tags@, m, y.exclude_tags@);
    }

    proof fn lemma_stable(&self, m: &M, a: Self, b: Self) {
        let x = *self;
        lemma_tags_stable(x.require_tags@, m, a.require_tags@, b.require_tags@);
        lemma_tags_stable(x.exclude_tags@, m, a.exclude_tags@, b.exclude_tags@);
    }

    #[verifier::rlimit(60)]
    #[verifier::spinoff_prover]
    proof fn lemma_walk_keeps(&self, m: &M, new: Self) {
        let x = *self;
        let y = new;
        if (tags_check(x.require_tags@, m)) is Err { lemma_tags_walk_keeps(x.require_tags@, m, y.require_tags@); lemma_tags_same_refl(x.exclude_tags@, m); } else { lemma_tags_identity(x.require_tags@, m, y.require_tags@); if (tags_check(x.exclude_tags@, m)) is Err { lemma_tags_walk_keeps(x.exclude_tags@, m, y.exclude_tags@); } else { lemma_tags_identity(x.exclude_tags@, m, y.exclude_tags@);  } }
    }

    proof fn lemma_same_refl(&self, m: &M) {
        let x = *self;
        lemma_tags_same_refl(x.require_tags@, m); lemma_tags_same_refl(x.exclude_tags@, m);
    }
}

impl<M1: IdMap, M2: IdMap> RemapPair<M1, M2> for TargetFilter {
    proof fn lemma_lands(&self, m1: &M1, m2: &M2, a: Self) {
        let x = *self;
        lemma_tags_lands(x.require_tags@, m1, m2, a.require_tags@);
        lemma_tags_lands(x.exclude_tags@, m1, m2, a.exclude_tags@);
    }

    proof fn lemma_fixed(&self, m1: &M1, m2: &M2, a: Self, b: Self) {
        let x = *self;
        lemma_tags_fixed(x.require_tags@, m1, m2, a.require_tags@, b.require_tags@);
        lemma_tags_fixed(x.exclude_tags@, m1, m2, a.exclude_tags@, b.exclude_tags@);
    }
}

impl<M1: IdMap, M2: IdMap, M12: IdMap> RemapCompose<M1, M2, M12> for TargetFilter {
    proof fn lemma_compose(&self, m1: &M1, m2: &M2, m12: &M12, a: Self, b: Self) {
        let x = *self;
        lemma_tags_compose(x.require_tags@, m1, m2, m12, a.require_tags@, b.require_tags@);
        lemma_tags_compose(x.exclude_tags@, m1, m2, m12, a.exclude_tags@, b.exclude_tags@);
    }
}

impl Contents for TargetShape {
    open spec fn same_as(&self, other: Self) -> bool {
        let x = *self;
        let y = other;
        match (x, y) {
            (TargetShape::SelfOnly, TargetShape::SelfOnly) => true,
            (TargetShape::Circle { radius: x_radius }, TargetShape::Circle { radius: y_radius }) => x_radius.same_as(y_radius),
            (TargetShape::Cone { radius: x_radius, angle: x_angle }, TargetShape::Cone { radius: y_radius, angle: y_angle }) => x_radius.same_as(y_radius) && x_angle.same_as(y_angle),
            (TargetShape::Chain { jumps: x_jumps, range: x_range }, TargetShape::Chain { jumps: y_jumps, range: y_range }) => x_jumps.same_as(y_jumps) && x_range.same_as(y_range),
            (TargetShape::Line { length: x_length, width: x_width }, TargetShape::Line { length: y_length, width: y_width }) => x_length.same_as(y_length) && x_width.same_as(y_width),
            (TargetShape::AllAllies, TargetShape::AllAllies) => true,
            (TargetShape::AllEnemies, TargetShape::AllEnemies) => true,
            _ => false,
        }
    }
}

impl<M: IdMap> RemapIds<M> for TargetShape {
    open spec fn remap_check(&self, m: &M) -> Result<(), M::Error> {
        let x = *self;
        match x {
            TargetShape::SelfOnly => Ok(()),
            TargetShape::Circle { radius: x_radius } => then(x_radius.remap_check(m), Ok(())),
            TargetShape::Cone { radius: x_radius, angle: x_angle } => then(x_radius.remap_check(m), x_angle.remap_check(m)),
            TargetShape::Chain { jumps: x_jumps, range: x_range } => then(x_jumps.remap_check(m), x_range.remap_check(m)),
            TargetShape::Line { length: x_length, width: x_width } => then(x_length.remap_check(m), x_width.remap_check(m)),
            TargetShape::AllAllies => Ok(()),
            TargetShape::AllEnemies => Ok(()),
        }
    }

    open spec fn remaps_to(&self, m: &M, new: Self) -> bool {
        let x = *self;
        let y = new;
        match (x, y) {
            (TargetShape::SelfOnly, TargetShape::SelfOnly) => true,
            (TargetShape::Circle { radius: x_radius }, TargetShape::Circle { radius: y_radius }) => x_radius.remaps_to(m, y_radius),
            (TargetShape::Cone { radius: x_radius, angle: x_angle }, TargetShape::Cone { radius: y_radius, angle: y_angle }) => x_radius.remaps_to(m, y_radius) && x_angle.remaps_to(m, y_angle),
            (TargetShape::Chain { jumps: x_jumps, range: x_range }, TargetShape::Chain { jumps: y_jumps, range: y_range }) => x_jumps.remaps_to(m, y_jumps) && x_range.remaps_to(m, y_range),
            (TargetShape::Line { length: x_length, width: x_width }, TargetShape::Line { length: y_length, width: y_width }) => x_length.remaps_to(m, y_length) && x_width.remaps_to(m, y_width),
            (TargetShape::AllAllies, TargetShape::AllAllies) => true,
            (TargetShape::AllEnemies, TargetShape::AllEnemies) => true,
            _ => false,
        }
    }

    open spec fn walked_to(&self, m: &M, new: Self) -> bool {
        let x = *self;
        let y = new;
        match (x, y) {
            (TargetShape::SelfOnly, TargetShape::SelfOnly) => true,
            (TargetShape::Circle { radius: x_radius }, TargetShape::Circle { radius: y_radius }) => (if (x_radius.remap_check(m)) is Err { x_radius.walked_to(m, y_radius) } else { x_radius.remaps_to(m, y_radius) && true }),
            (TargetShape::Cone { radius: x_radius, angle: x_angle }, TargetShape::Cone { radius: y_radius, angle: y_angle }) => (if (x_radius.remap_check(m)) is Err { x_radius.walked_to(m, y_radius) && x_angle == y_angle } else { x_radius.remaps_to(m, y_radius) && (if (x_angle.remap_check(m)) is Err { x_angle.walked_to(m, y_angle) } else { x_angle.remaps_to(m, y_angle) && true }) }),
            (TargetShape::Chain { jumps: x_jumps, range: x_range }, TargetShape::Chain { jumps: y_jumps, range: y_range }) => (if (x_jumps.remap_check(m)) is Err { x_jumps.walked_to(m, y_jumps) && x_range == y_range } else { x_jumps.remaps_to(m, y_jumps) && (if (x_range.remap_check(m)) is Err { x_range.walked_to(m, y_range) } else { x_range.remaps_to(m, y_range) && true }) }),
            (TargetShape::Line { length: x_length, width: x_width }, TargetShape::Line { length: y_length, width: y_width }) => (if (x_length.remap_check(m)) is Err { x_length.walked_to(m, y_length) && x_width == y_width } else { x_length.remaps_to(m, y_length) && (if (x_width.remap_check(m)) is Err { x_width.walked_to(m, y_width) } else { x_width.remaps_to(m, y_width) && true }) }),
            (TargetShape::AllAllies, TargetShape::AllAllies) => true,
            (TargetShape::AllEnemies, TargetShape::AllEnemies) => true,
            _ => false,
        }
    }

    #[verifier::rlimit(60)]
    #[verifier::spinoff_prover]
    fn remap_ids(&mut self, m: &M) -> (r: Result<(), M::Error>) {
        let x = self;
        match x {
            TargetShape::SelfOnly => {
            },
            TargetShape::Circle { radius: x_radius } => {
                let r = x_radius.remap_ids(m);
                if r.is_err() {
                    return r;
                }
            },
            TargetShape::Cone { radius: x_radius, angle: x_angle } => {
                let r = x_radius.remap_ids(m);
                if r.is_err() {
                    return r;
                }
                let r = x_angle.remap_ids(m);
                if r.is_err() {
                    return r;
                }
            },
            TargetShape::Chain { jumps: x_jumps, range: x_range } => {
                let r = x_jumps.remap_ids(m);
                if r.is_err() {
                    return r;
                }
                let r = x_range.remap_ids(m);
                if r.is_err() {
                    return r;
                }
            },
            TargetShape::Line { length: x_length, width: x_width } => {
                let r = x_length.remap_ids(m);
                if r.is_err() {
                    return r;
                }
                let r = x_width.remap_ids(m);
                if r.is_err() {
                    return r;
                }
            },
            TargetShape::AllAllies => {
            },
            TargetShape::AllEnemies => {
            },
        }
        Ok(())
    }

    proof fn lemma_total(&self, m: &M) {
        let x = *self;
        match x {
            TargetShape::SelfOnly => {  },
            TargetShape::Circle { radius: x_radius } => { x_radius.lemma_total(m); },
            TargetShape::Cone { radius: x_radius, angle: x_angle } => { x_radius.lemma_total(m); x_angle.lemma_total(m); },
            TargetShape::Chain { jumps: x_jumps, range: x_range } => { x_jumps.lemma_total(m); x_range.lemma_total(m); },
            TargetShape::Line { length: x_length, width: x_width } => { x_length.lemma_total(m); x_width.lemma_total(m); },
            TargetShape::AllAllies => {  },
            TargetShape::AllEnemies => {  },
        }
    }

    proof fn lemma_identity(&self, m: &M, new: Self) {
        let x = *self;
        let y = new;
        match (x, y) {
            (TargetShape::SelfOnly, TargetShape::SelfOnly) => {  },
            (TargetShape::Circle { radius: x_radius }, TargetShape::Circle { radius: y_radius }) => { x_radius.lemma_identity(m, y_radius); },
            (TargetShape::Cone { radius: x_radius, angle: x_angle }, TargetShape::Cone { radius: y_radius, angle: y_angle }) => { x_radius.lemma_identity(m, y_radius); x_angle.lemma_identity(m, y_angle); },
            (TargetShape::Chain { jumps: x_jumps, range: x_range }, TargetShape::Chain { jumps: y_jumps, range: y_range }) => { x_jumps.lemma_identity(m, y_jumps); x_range.lemma_identity(m, y_range); },
            (TargetShape::Line { length: x_length, width: x_width }, TargetShape::Line { length: y_length, width: y_width }) => { x_length.lemma_identity(m, y_length); x_width.lemma_identity(m, y_width); },
            (TargetShape::AllAllies, TargetShape::AllAllies) => {  },
            (TargetShape::AllEnemies, TargetShape::AllEnemies) => {  },
            _ => {},
        }
    }

    proof fn lemma_stable(&self, m: &M, a: Self, b: Self) {
        let x = *self;
        match (x, a, b) {
            (TargetShape::SelfOnly, TargetShape::SelfOnly, TargetShape::SelfOnly) => {  },
            (TargetShape::Circle { radius: x_radius }, TargetShape::Circle { radius: a_radius }, TargetShape::Circle { radius: b_radius }) => { x_radius.lemma_stable(m, a_radius, b_radius); },
            (TargetShape::Cone { radius: x_radius, angle: x_angle }, TargetShape::Cone { radius: a_radius, angle: a_angle }, TargetShape::Cone { radius: b_radius, angle: b_angle }) => { x_radius.lemma_stable(m, a_radius, b_radius); x_angle.lemma_stable(m, a_angle, b_angle); },
            (TargetShape::Chain { jumps: x_jumps, range: x_range }, TargetShape::Chain { jumps: a_jumps, range: a_range }, TargetShape::Chain { jumps: b_jumps, range: b_range }) => { x_jumps.lemma_stable(m, a_jumps, b_jumps); x_range.lemma_stable(m, a_range, b_range); },
            (TargetShape::Line { length: x_length, width: x_width }, TargetShape::Line { length: a_length, width: a_width }, TargetShape::Line { length: b_length, width: b_width }) => { x_length.lemma_stable(m, a_length, b_length); x_width.lemma_stable(m, a_width, b_width); },
            (TargetShape::AllAllies, TargetShape::AllAllies, TargetShape::AllAllies) => {  },
            (TargetShape::AllEnemies, TargetShape::AllEnemies, TargetShape::AllEnemies) => {  },
            _ => {},
        }
    }

    #[verifier::rlimit(60)]
    #[verifier::spinoff_prover]
    proof fn lemma_walk_keeps(&self, m: &M, new: Self) {
        let x = *self;
        let y = new;
        match (x, y) {
            (TargetShape::SelfOnly, TargetShape::SelfOnly) => {  },
            (TargetShape::Circle { radius: x_radius }, TargetShape::Circle { radius: y_radius }) => { if (x_radius.remap_check(m)) is Err { x_radius.lemma_walk_keeps(m, y_radius); } else { x_radius.lemma_identity(m, y_radius);  } },
            (TargetShape::Cone { radius: x_radius, angle: x_angle }, TargetShape::Cone { radius: y_radius, angle: y_angle }) => { if (x_radius.remap_check(m)) is Err { x_radius.lemma_walk_keeps(m, y_radius); x_angle.lemma_same_refl(m); } else { x_radius.lemma_identity(m, y_radius); if (x_angle.remap_check(m)) is Err { x_angle.lemma_walk_keeps(m, y_angle); } else { x_angle.lemma_identity(m, y_angle);  } } },
            (TargetShape::Chain { jumps: x_jumps, range: x_range }, TargetShape::Chain { jumps: y_jumps, range: y_range }) => { if (x_jumps.remap_check(m)) is Err { x_jumps.lemma_walk_keeps(m, y_jumps); x_range.lemma_same_refl(m); } else { x_jumps.lemma_identity(m, y_jumps); if (x_range.remap_check(m)) is Err { x_range.lemma_walk_keeps(m, y_range); } else { x_range.lemma_identity(m, y_range);  } } },
            (TargetShape::Line { length: x_length, width: x_width }, TargetShape::Line { length: y_length, width: y_width }) => { if (x_length.remap_check(m)) is Err { x_length.lemma_walk_keeps(m, y_length); x_width.lemma_same_refl(m); } else { x_length.lemma_identity(m, y_length); if (x_width.remap_check(m)) is Err { x_width.lemma_walk_keeps(m, y_width); } else { x_width.lemma_identity(m, y_width);  } } },
            (TargetShape::AllAllies, TargetShape::AllAllies) => {  },
            (TargetShape::AllEnemies, TargetShape::AllEnemies) => {  },
            _ => {},
        }
    }

    proof fn lemma_same_refl(&self, m: &M) {
        let x = *self;
        match x {
            TargetShape::SelfOnly => {  },
            TargetShape::Circle { radius: x_radius } => { x_radius.lemma_same_refl(m); },
            TargetShape::Cone { radius: x_radius, angle: x_angle } => { x_radius.lemma_same_refl(m); x_angle.lemma_same_refl(m); },
            TargetShape::Chain { jumps: x_jumps, range: x_range } => { x_jumps.lemma_same_refl(m); x_range.lemma_same_refl(m); },
            TargetShape::Line { length: x_length, width: x_width } => { x_length.lemma_same_refl(m); x_width.lemma_same_refl(m); },
            TargetShape::AllAllies => {  },
            TargetShape::AllEnemies => {  },
        }
    }
}

impl<M1: IdMap, M2: IdMap> RemapPair<M1, M2> for TargetShape {
    proof fn lemma_lands(&self, m1: &M1, m2: &M2, a: Self) {
        let x = *self;
        match (x, a) {
            (TargetShape::SelfOnly, TargetShape::SelfOnly) => {  },
            (TargetShape::Circle { radius: x_radius }, TargetShape::Circle { radius: a_radius }) => { x_radius.lemma_lands(m1, m2, a_radius); },
            (TargetShape::Cone { radius: x_radius, angle: x_angle }, TargetShape::Cone { radius: a_radius, angle: a_angle }) => { x_radius.lemma_lands(m1, m2, a_radius); x_angle.lemma_lands(m1, m2, a_angle); },
            (TargetShape::Chain { jumps: x_jumps, range: x_range }, TargetShape::Chain { jumps: a_jumps, range: a_range }) => { x_jumps.lemma_lands(m1, m2, a_jumps); x_range.lemma_lands(m1, m2, a_range); },
            (TargetShape::Line { length: x_length, width: x_width }, TargetShape::Line { length: a_length, width: a_width }) => { x_length.lemma_lands(m1, m2, a_length); x_width.lemma_lands(m1, m2, a_width); },
            (TargetShape::AllAllies, TargetShape::AllAllies) => {  },
            (TargetShape::AllEnemies, TargetShape::AllEnemies) => {  },
            _ => {},
        }
    }

    proof fn lemma_fixed(&self, m1: &M1, m2: &M2, a: Self, b: Self) {
        let x = *self;
        match (x, a, b) {
            (TargetShape::SelfOnly, TargetShape::SelfOnly, TargetShape::SelfOnly) => {  },
            (TargetShape::Circle { radius: x_radius }, TargetShape::Circle { radius: a_radius }, TargetShape::Circle { radius: b_radius }) => { x_radius.lemma_fixed(m1, m2, a_radius, b_radius); },
            (TargetShape::Cone { radius: x_radius, angle: x_angle }, TargetShape::Cone { radius: a_radius, angle: a_angle }, TargetShape::Cone { radius: b_radius, angle: b_angle }) => { x_radius.lemma_fixed(m1, m2, a_radius, b_radius); x_angle.lemma_fixed(m1, m2, a_angle, b_angle); },
            (TargetShape::Chain { jumps: x_jumps, range: x_range }, TargetShape::Chain { jumps: a_jumps, range: a_range }, TargetShape::Chain { jumps: b_jumps, range: b_range }) => { x_jumps.lemma_fixed(m1, m2, a_jumps, b_jumps); x_range.lemma_fixed(m1, m2, a_range, b_range); },
            (TargetShape::Line { length: x_length, width: x_width }, TargetShape::Line { length: a_length, width: a_width }, TargetShape::Line { length: b_length, width: b_width }) => { x_length.lemma_fixed(m1, m2, a_length, b_length); x_width.lemma_fixed(m1, m2, a_width, b_width); },
            (TargetShape::AllAllies, TargetShape::AllAllies, TargetShape::AllAllies) => {  },
            (TargetShape::AllEnemies, TargetShape::AllEnemies, TargetShape::AllEnemies) => {  },
            _ => {},
        }
    }
}

impl<M1: IdMap, M2: IdMap, M12: IdMap> RemapCompose<M1, M2, M12> for TargetShape {
    proof fn lemma_compose(&self, m1: &M1, m2: &M2, m12: &M12, a: Self, b: Self) {
        let x = *self;
        match (x, a, b) {
            (TargetShape::SelfOnly, TargetShape::SelfOnly, TargetShape::SelfOnly) => {  },
            (TargetShape::Circle { radius: x_radius }, TargetShape::Circle { radius: a_radius }, TargetShape::Circle { radius: b_radius }) => { x_radius.lemma_compose(m1, m2, m12, a_radius, b_radius); },
            (TargetShape::Cone { radius: x_radius, angle: x_angle }, TargetShape::Cone { radius: a_radius, angle: a_angle }, TargetShape::Cone { radius: b_radius, angle: b_angle }) => { x_radius.lemma_compose(m1, m2, m12, a_radius, b_radius); x_angle.lemma_compose(m1, m2, m12, a_angle, b_angle); },
            (TargetShape::Chain { jumps: x_jumps, range: x_range }, TargetShape::Chain { jumps: a_jumps, range: a_range }, TargetShape::Chain { jumps: b_jumps, range: b_range }) => { x_jumps.lemma_compose(m1, m2, m12, a_jumps, b_jumps); x_range.lemma_compose(m1, m2, m12, a_range, b_range); },
            (TargetShape::Line { length: x_length, width: x_width }, TargetShape::Line { length: a_length, width: a_width }, TargetShape::Line { length: b_length, width: b_width }) => { x_length.lemma_compose(m1, m2, m12, a_length, b_length); x_width.lemma_compose(m1, m2, m12, a_width, b_width); },
            (TargetShape::AllAllies, TargetShape::AllAllies, TargetShape::AllAllies) => {  },
            (TargetShape::AllEnemies, TargetShape::AllEnemies, TargetShape::AllEnemies) => {  },
            _ => {},
        }
    }
}

impl Contents for LoopKind {
    open spec fn same_as(&self, other: Self) -> bool {
        let x = *self;
        let y = other;
        match (x, y) {
            (LoopKind::Times { count: x_count, gap: x_gap }, LoopKind::Times { count: y_count, gap: y_gap }) => x_count.same_as(y_count) && x_gap.same_as(y_gap),
            (LoopKind::Interval { period: x_period, ticks: x_ticks }, LoopKind::Interval { period: y_period, ticks: y_ticks }) => x_period.same_as(y_period) && x_ticks.same_as(y_ticks),
            _ => false,
        }
    }
}

impl<M: IdMap> RemapIds<M> for LoopKind {
    open spec fn remap_check(&self, m: &M) -> Result<(), M::Error> {
        let x = *self;
        match x {
            LoopKind::Times { count: x_count, gap: x_gap } => then(x_count.remap_check(m), x_gap.remap_check(m)),
            LoopKind::Interval { period: x_period, ticks: x_ticks } => then(x_period.remap_check(m), x_ticks.remap_check(m)),
        }
    }

    open spec fn remaps_to(&self, m: &M, new: Self) -> bool {
        let x = *self;
        let y = new;
        match (x, y) {
            (LoopKind::Times { count: x_count, gap: x_gap }, LoopKind::Times { count: y_count, gap: y_gap }) => x_count.remaps_to(m, y_count) && x_gap.remaps_to(m, y_gap),
            (LoopKind::Interval { period: x_period, ticks: x_ticks }, LoopKind::Interval { period: y_period, ticks: y_ticks }) => x_period.remaps_to(m, y_period) && x_ticks.remaps_to(m, y_ticks),
            _ => false,
        }
    }

    open spec fn walked_to(&self, m: &M, new: Self) -> bool {
        let x = *self;
        let y = new;
        match (x, y) {
            (LoopKind::Times { count: x_count, gap: x_gap }, LoopKind::Times { count: y_count, gap: y_gap }) => (if (x_count.remap_check(m)) is Err { x_count.walked_to(m, y_count) && x_gap == y_gap } else { x_count.remaps_to(m, y_count) && (if (x_gap.remap_check(m)) is Err { x_gap.walked_to(m, y_gap) } else { x_gap.remaps_to(m, y_gap) && true }) }),
            (LoopKind::Interval { period: x_period, ticks: x_ticks }, LoopKind::Interval { period: y_period, ticks: y_ticks }) => (if (x_period.remap_check(m)) is Err { x_period.walked_to(m, y_period) && x_ticks == y_ticks } else { x_period.remaps_to(m, y_period) && (if (x_ticks.remap_check(m)) is Err { x_ticks.walked_to(m, y_ticks) } else { x_ticks.remaps_to(m, y_ticks) && true }) }),
            _ => false,
        }
    }

    #[verifier::rlimit(60)]
    #[verifier::spinoff_prover]
    fn remap_ids(&mut self, m: &M) -> (r: Result<(), M::Error>) {
        let x = self;
        match x {
            LoopKind::Times { count: x_count, gap: x_gap } => {
                let r = x_count.remap_ids(m);
                if r.is_err() {
                    return r;
                }
                let r = x_gap.remap_ids(m);
                if r.is_err() {
                    return r;
                }
            },
            LoopKind::Interval { period: x_period, ticks: x_ticks } => {
                let r = x_period.remap_ids(m);
                if r.is_err() {
                    return r;
                }
                let r = x_ticks.remap_ids(m);
                if r.is_err() {
                    return r;
                }
            },
        }
        Ok(())
    }

    proof fn lemma_total(&self, m: &M) {
        let x = *self;
        match x {
            LoopKind::Times { count: x_count, gap: x_gap } => { x_count.lemma_total(m); x_gap.lemma_total(m); },
            LoopKind::Interval { period: x_period, ticks: x_ticks } => { x_period.lemma_total(m); x_ticks.lemma_total(m); },
        }
    }

    proof fn lemma_identity(&self, m: &M, new: Self) {
        let x = *self;
        let y = new;
        match (x, y) {
            (LoopKind::Times { count: x_count, gap: x_gap }, LoopKind::Times { count: y_count, gap: y_gap }) => { x_count.lemma_identity(m, y_count); x_gap.lemma_identity(m, y_gap); },
            (LoopKind::Interval { period: x_period, ticks: x_ticks }, LoopKind::Interval { period: y_period, ticks: y_ticks }) => { x_period.lemma_identity(m, y_period); x_ticks.lemma_identity(m, y_ticks); },
            _ => {},
        }
    }

    proof fn lemma_stable(&self, m: &M, a: Self, b: Self) {
        let x = *self;
        match (x, a, b) {
            (LoopKind::Times { count: x_count, gap: x_gap }, LoopKind::Times { count: a_count, gap: a_gap }, LoopKind::Times { count: b_count, gap: b_gap }) => { x_count.lemma_stable(m, a_count, b_count); x_gap.lemma_stable(m, a_gap, b_gap); },
            (LoopKind::Interval { period: x_period, ticks: x_ticks }, LoopKind::Interval { period: a_period, ticks: a_ticks }, LoopKind::Interval { period: b_period, ticks: b_ticks }) => { x_period.lemma_stable(m, a_period, b_period); x_ticks.lemma_stable(m, a_ticks, b_ticks); },
            _ => {},
        }
    }

    #[verifier::rlimit(60)]
    #[verifier::spinoff_prover]
    proof fn lemma_walk_keeps(&self, m: &M, new: Self) {
        let x = *self;
        let y = new;
        match (x, y) {
            (LoopKind::Times { count: x_count, gap: x_gap }, LoopKind::Times { count: y_count, gap: y_gap }) => { if (x_count.remap_check(m)) is Err { x_count.lemma_walk_keeps(m, y_count); x_gap.lemma_same_refl(m); } else { x_count.lemma_identity(m, y_count); if (x_gap.remap_check(m)) is Err { x_gap.lemma_walk_keeps(m, y_gap); } else { x_gap.lemma_identity(m, y_gap);  } } },
            (LoopKind::Interval { period: x_period, ticks: x_ticks }, LoopKind::Interval { period: y_period, ticks: y_ticks }) => { if (x_period.remap_check(m)) is Err { x_period.lemma_walk_keeps(m, y_period); x_ticks.lemma_same_refl(m); } else { x_period.lemma_identity(m, y_period); if (x_ticks.remap_check(m)) is Err { x_ticks.lemma_walk_keeps(m, y_ticks); } else { x_ticks.lemma_identity(m, y_ticks);  } } },
            _ => {},
        }
    }

    proof fn lemma_same_refl(&self, m: &M) {
        let x = *self;
        match x {
            LoopKind::Times { count: x_count, gap: x_gap } => { x_count.lemma_same_refl(m); x_gap.lemma_same_refl(m); },
            LoopKind::Interval { period: x_period, ticks: x_ticks } => { x_period.lemma_same_refl(m); x_ticks.lemma_same_refl(m); },
        }
    }
}

impl<M1: IdMap, M2: IdMap> RemapPair<M1, M2> for LoopKind {
    proof fn lemma_lands(&self, m1: &M1, m2: &M2, a: Self) {
        let x = *self;
        match (x, a) {
            (LoopKind::Times { count: x_count, gap: x_gap }, LoopKind::Times { count: a_count, gap: a_gap }) => { x_count.lemma_lands(m1, m2, a_count); x_gap.lemma_lands(m1, m2, a_gap); },
            (LoopKind::Interval { period: x_period, ticks: x_ticks }, LoopKind::Interval { period: a_period, ticks: a_ticks }) => { x_period.lemma_lands(m1, m2, a_period); x_ticks.lemma_lands(m1, m2, a_ticks); },
            _ => {},
        }
    }

    proof fn lemma_fixed(&self, m1: &M1, m2: &M2, a: Self, b: Self) {
        let x = *self;
        match (x, a, b) {
            (LoopKind::Times { count: x_count, gap: x_gap }, LoopKind::Times { count: a_count, gap: a_gap }, LoopKind::Times { count: b_count, gap: b_gap }) => { x_count.lemma_fixed(m1, m2, a_count, b_count); x_gap.lemma_fixed(m1, m2, a_gap, b_gap); },
            (LoopKind::Interval { period: x_period, ticks: x_ticks }, LoopKind::Interval { period: a_period, ticks: a_ticks }, LoopKind::Interval { period: b_period, ticks: b_ticks }) => { x_period.lemma_fixed(m1, m2, a_period, b_period); x_ticks.lemma_fixed(m1, m2, a_ticks, b_ticks); },
            _ => {},
        }
    }
}

impl<M1: IdMap, M2: IdMap, M12: IdMap> RemapCompose<M1, M2, M12> for LoopKind {
    proof fn lemma_compose(&self, m1: &M1, m2: &M2, m12: &M12, a: Self, b: Self) {
        let x = *self;
        match (x, a, b) {
            (LoopKind::Times { count: x_count, gap: x_gap }, LoopKind::Times { count: a_count, gap: a_gap }, LoopKind::Times { count: b_count, gap: b_gap }) => { x_count.lemma_compose(m1, m2, m12, a_count, b_count); x_gap.lemma_compose(m1, m2, m12, a_gap, b_gap); },
            (LoopKind::Interval { period: x_period, ticks: x_ticks }, LoopKind::Interval { period: a_period, ticks: a_ticks }, LoopKind::Interval { period: b_period, ticks: b_ticks }) => { x_period.lemma_compose(m1, m2, m12, a_period, b_period); x_ticks.lemma_compose(m1, m2, m12, a_ticks, b_ticks); },
            _ => {},
        }
    }
}

impl Contents for PoolRef {
    open spec fn same_as(&self, other: Self) -> bool {
        let x = *self;
        let y = other;
        match (x, y) {
            (PoolRef::Shield, PoolRef::Shield) => true,
            (PoolRef::Resource(x_0), PoolRef::Resource(y_0)) => x_0 == y_0,
            (PoolRef::Stacks(x_0), PoolRef::Stacks(y_0)) => x_0 == y_0,
            (PoolRef::Cooldown(x_0), PoolRef::Cooldown(y_0)) => x_0 == y_0,
            (PoolRef::Charges(x_0), PoolRef::Charges(y_0)) => x_0 == y_0,
            _ => false,
        }
    }
}

impl<M: IdMap> RemapIds<M> for PoolRef {
    open spec fn remap_check(&self, m: &M) -> Result<(), M::Error> {
        let x = *self;
        match x {
            PoolRef::Shield => Ok(()),
            PoolRef::Resource(x_0) => then(leaf(m.resource_spec(x_0)), Ok(())),
            PoolRef::Stacks(x_0) => then(leaf(m.stack_spec(x_0)), Ok(())),
            PoolRef::Cooldown(x_0) => then(leaf(m.slot_ref_spec(x_0)), Ok(())),
            PoolRef::Charges(x_0) => then(leaf(m.slot_ref_spec(x_0)), Ok(())),
        }
    }

    open spec fn remaps_to(&self, m: &M, new: Self) -> bool {
        let x = *self;
        let y = new;
        match (x, y) {
            (PoolRef::Shield, PoolRef::Shield) => true,
            (PoolRef::Resource(x_0), PoolRef::Resource(y_0)) => m.resource_spec(x_0) == Ok::<ResourceId, M::Error>(y_0),
            (PoolRef::Stacks(x_0), PoolRef::Stacks(y_0)) => m.stack_spec(x_0) == Ok::<StackId, M::Error>(y_0),
            (PoolRef::Cooldown(x_0), PoolRef::Cooldown(y_0)) => m.slot_ref_spec(x_0) == Ok::<SlotRef, M::Error>(y_0),
            (PoolRef::Charges(x_0), PoolRef::Charges(y_0)) => m.slot_ref_spec(x_0) == Ok::<SlotRef, M::Error>(y_0),
            _ => false,
        }
    }

    open spec fn walked_to(&self, m: &M, new: Self) -> bool {
        let x = *self;
        let y = new;
        match (x, y) {
            (PoolRef::Shield, PoolRef::Shield) => true,
            (PoolRef::Resource(x_0), PoolRef::Resource(y_0)) => (if (leaf(m.resource_spec(x_0))) is Err { x_0 == y_0 } else { m.resource_spec(x_0) == Ok::<ResourceId, M::Error>(y_0) && true }),
            (PoolRef::Stacks(x_0), PoolRef::Stacks(y_0)) => (if (leaf(m.stack_spec(x_0))) is Err { x_0 == y_0 } else { m.stack_spec(x_0) == Ok::<StackId, M::Error>(y_0) && true }),
            (PoolRef::Cooldown(x_0), PoolRef::Cooldown(y_0)) => (if (leaf(m.slot_ref_spec(x_0))) is Err { x_0 == y_0 } else { m.slot_ref_spec(x_0) == Ok::<SlotRef, M::Error>(y_0) && true }),
            (PoolRef::Charges(x_0), PoolRef::Charges(y_0)) => (if (leaf(m.slot_ref_spec(x_0))) is Err { x_0 == y_0 } else { m.slot_ref_spec(x_0) == Ok::<SlotRef, M::Error>(y_0) && true }),
            _ => false,
        }
    }

    #[verifier::rlimit(60)]
    #[verifier::spinoff_prover]
    fn remap_ids(&mut self, m: &M) -> (r: Result<(), M::Error>) {
        let x = self;
        match x {
            PoolRef::Shield => {
            },
            PoolRef::Resource(x_0) => {
                match m.resource(*x_0) {
                    Ok(v) => { *x_0 = v; },
                    Err(e) => { return Err(e); },
                }
            },
            PoolRef::Stacks(x_0) => {
                match m.stack(*x_0) {
                    Ok(v) => { *x_0 = v; },
                    Err(e) => { return Err(e); },
                }
            },
            PoolRef::Cooldown(x_0) => {
                match m.slot_ref(*x_0) {
                    Ok(v) => { *x_0 = v; },
                    Err(e) => { return Err(e); },
                }
            },
            PoolRef::Charges(x_0) => {
                match m.slot_ref(*x_0) {
                    Ok(v) => { *x_0 = v; },
                    Err(e) => { return Err(e); },
                }
            },
        }
        Ok(())
    }

    proof fn lemma_total(&self, m: &M) {
        let x = *self;
        match x {
            PoolRef::Shield => {  },
            PoolRef::Resource(x_0) => {  },
            PoolRef::Stacks(x_0) => {  },
            PoolRef::Cooldown(x_0) => {  },
            PoolRef::Charges(x_0) => {  },
        }
    }

    proof fn lemma_identity(&self, m: &M, new: Self) {
        let x = *self;
        let y = new;
        match (x, y) {
            (PoolRef::Shield, PoolRef::Shield) => {  },
            (PoolRef::Resource(x_0), PoolRef::Resource(y_0)) => {  },
            (PoolRef::Stacks(x_0), PoolRef::Stacks(y_0)) => {  },
            (PoolRef::Cooldown(x_0), PoolRef::Cooldown(y_0)) => {  },
            (PoolRef::Charges(x_0), PoolRef::Charges(y_0)) => {  },
            _ => {},
        }
    }

    proof fn lemma_stable(&self, m: &M, a: Self, b: Self) {
        let x = *self;
        match (x, a, b) {
            (PoolRef::Shield, PoolRef::Shield, PoolRef::Shield) => {  },
            (PoolRef::Resource(x_0), PoolRef::Resource(a_0), PoolRef::Resource(b_0)) => {  },
            (PoolRef::Stacks(x_0), PoolRef::Stacks(a_0), PoolRef::Stacks(b_0)) => {  },
            (PoolRef::Cooldown(x_0), PoolRef::Cooldown(a_0), PoolRef::Cooldown(b_0)) => {  },
            (PoolRef::Charges(x_0), PoolRef::Charges(a_0), PoolRef::Charges(b_0)) => {  },
            _ => {},
        }
    }

    #[verifier::rlimit(60)]
    #[verifier::spinoff_prover]
    proof fn lemma_walk_keeps(&self, m: &M, new: Self) {
        let x = *self;
        let y = new;
        match (x, y) {
            (PoolRef::Shield, PoolRef::Shield) => {  },
            (PoolRef::Resource(x_0), PoolRef::Resource(y_0)) => { if (leaf(m.resource_spec(x_0))) is Err {  } else {   } },
            (PoolRef::Stacks(x_0), PoolRef::Stacks(y_0)) => { if (leaf(m.stack_spec(x_0))) is Err {  } else {   } },
            (PoolRef::Cooldown(x_0), PoolRef::Cooldown(y_0)) => { if (leaf(m.slot_ref_spec(x_0))) is Err {  } else {   } },
            (PoolRef::Charges(x_0), PoolRef::Charges(y_0)) => { if (leaf(m.slot_ref_spec(x_0))) is Err {  } else {   } },
            _ => {},
        }
    }

    proof fn lemma_same_refl(&self, m: &M) {
        let x = *self;
        match x {
            PoolRef::Shield => {  },
            PoolRef::Resource(x_0) => {  },
            PoolRef::Stacks(x_0) => {  },
            PoolRef::Cooldown(x_0) => {  },
            PoolRef::Charges(x_0) => {  },
        }
    }
}

impl<M1: IdMap, M2: IdMap> RemapPair<M1, M2> for PoolRef {
    proof fn lemma_lands(&self, m1: &M1, m2: &M2, a: Self) {
        let x = *self;
        match (x, a) {
            (PoolRef::Shield, PoolRef::Shield) => {  },
            (PoolRef::Resource(x_0), PoolRef::Resource(a_0)) => {  },
            (PoolRef::Stacks(x_0), PoolRef::Stacks(a_0)) => {  },
            (PoolRef::Cooldown(x_0), PoolRef::Cooldown(a_0)) => {  },
            (PoolRef::Charges(x_0), PoolRef::Charges(a_0)) => {  },
            _ => {},
        }
    }

    proof fn lemma_fixed(&self, m1: &M1, m2: &M2, a: Self, b: Self) {
        let x = *self;
        match (x, a, b) {
            (PoolRef::Shield, PoolRef::Shield, PoolRef::Shield) => {  },
            (PoolRef::Resource(x_0), PoolRef::Resource(a_0), PoolRef::Resource(b_0)) => {  },
            (PoolRef::Stacks(x_0), PoolRef::Stacks(a_0), PoolRef::Stacks(b_0)) => {  },
            (PoolRef::Cooldown(x_0), PoolRef::Cooldown(a_0), PoolRef::Cooldown(b_0)) => {  },
            (PoolRef::Charges(x_0), PoolRef::Charges(a_0), PoolRef::Charges(b_0)) => {  },
            _ => {},
        }
    }
}

impl<M1: IdMap, M2: IdMap, M12: IdMap> RemapCompose<M1, M2, M12> for PoolRef {
    proof fn lemma_compose(&self, m1: &M1, m2: &M2, m12: &M12, a: Self, b: Self) {
        let x = *self;
        match (x, a, b) {
            (PoolRef::Shield, PoolRef::Shield, PoolRef::Shield) => {  },
            (PoolRef::Resource(x_0), PoolRef::Resource(a_0), PoolRef::Resource(b_0)) => {  },
            (PoolRef::Stacks(x_0), PoolRef::Stacks(a_0), PoolRef::Stacks(b_0)) => {  },
            (PoolRef::Cooldown(x_0), PoolRef::Cooldown(a_0), PoolRef::Cooldown(b_0)) => {  },
            (PoolRef::Charges(x_0), PoolRef::Charges(a_0), PoolRef::Charges(b_0)) => {  },
            _ => {},
        }
    }
}

impl Contents for BuffSelector {
    open spec fn same_as(&self, other: Self) -> bool {
        let x = *self;
        let y = other;
        match (x, y) {
            (BuffSelector::Id(x_0), BuffSelector::Id(y_0)) => x_0 == y_0,
            (BuffSelector::Class(x_0), BuffSelector::Class(y_0)) => x_0 == y_0,
            _ => false,
        }
    }
}

impl<M: IdMap> RemapIds<M> for BuffSelector {
    open spec fn remap_check(&self, m: &M) -> Result<(), M::Error> {
        let x = *self;
        match x {
            BuffSelector::Id(x_0) => then(leaf(m.buff_spec(x_0)), Ok(())),
            BuffSelector::Class(x_0) => then(leaf(m.tag_class_spec(x_0)), Ok(())),
        }
    }

    open spec fn remaps_to(&self, m: &M, new: Self) -> bool {
        let x = *self;
        let y = new;
        match (x, y) {
            (BuffSelector::Id(x_0), BuffSelector::Id(y_0)) => m.buff_spec(x_0) == Ok::<BuffId, M::Error>(y_0),
            (BuffSelector::Class(x_0), BuffSelector::Class(y_0)) => m.tag_class_spec(x_0) == Ok::<TagClassId, M::Error>(y_0),
            _ => false,
        }
    }

    open spec fn walked_to(&self, m: &M, new: Self) -> bool {
        let x = *self;
        let y = new;
        match (x, y) {
            (BuffSelector::Id(x_0), BuffSelector::Id(y_0)) => (if (leaf(m.buff_spec(x_0))) is Err { x_0 == y_0 } else { m.buff_spec(x_0) == Ok::<BuffId, M::Error>(y_0) && true }),
            (BuffSelector::Class(x_0), BuffSelector::Class(y_0)) => (if (leaf(m.tag_class_spec(x_0))) is Err { x_0 == y_0 } else { m.tag_class_spec(x_0) == Ok::<TagClassId, M::Error>(y_0) && true }),
            _ => false,
        }
    }

    #[verifier::rlimit(60)]
    #[verifier::spinoff_prover]
    fn remap_ids(&mut self, m: &M) -> (r: Result<(), M::Error>) {
        let x = self;
        match x {
            BuffSelector::Id(x_0) => {
                match m.buff(*x_0) {
                    Ok(v) => { *x_0 = v; },
                    Err(e) => { return Err(e); },
                }
            },
            BuffSelector::Class(x_0) => {
                match m.tag_class(*x_0) {
                    Ok(v) => { *x_0 = v; },
                    Err(e) => { return Err(e); },
                }
            },
        }
        Ok(())
    }

    proof fn lemma_total(&self, m: &M) {
        let x = *self;
        match x {
            BuffSelector::Id(x_0) => {  },
            BuffSelector::Class(x_0) => {  },
        }
    }

    proof fn lemma_identity(&self, m: &M, new: Self) {
        let x = *self;
        let y = new;
        match (x, y) {
            (BuffSelector::Id(x_0), BuffSelector::Id(y_0)) => {  },
            (BuffSelector::Class(x_0), BuffSelector::Class(y_0)) => {  },
            _ => {},
        }
    }

    proof fn lemma_stable(&self, m: &M, a: Self, b: Self) {
        let x = *self;
        match (x, a, b) {
            (BuffSelector::Id(x_0), BuffSelector::Id(a_0), BuffSelector::Id(b_0)) => {  },
            (BuffSelector::Class(x_0), BuffSelector::Class(a_0), BuffSelector::Class(b_0)) => {  },
            _ => {},
        }
    }

    #[verifier::rlimit(60)]
    #[verifier::spinoff_prover]
    proof fn lemma_walk_keeps(&self, m: &M, new: Self) {
        let x = *self;
        let y = new;
        match (x, y) {
            (BuffSelector::Id(x_0), BuffSelector::Id(y_0)) => { if (leaf(m.buff_spec(x_0))) is Err {  } else {   } },
            (BuffSelector::Class(x_0), BuffSelector::Class(y_0)) => { if (leaf(m.tag_class_spec(x_0))) is Err {  } else {   } },
            _ => {},
        }
    }

    proof fn lemma_same_refl(&self, m: &M) {
        let x = *self;
        match x {
            BuffSelector::Id(x_0) => {  },
            BuffSelector::Class(x_0) => {  },
        }
    }
}

impl<M1: IdMap, M2: IdMap> RemapPair<M1, M2> for BuffSelector {
    proof fn lemma_lands(&self, m1: &M1, m2: &M2, a: Self) {
        let x = *self;
        match (x, a) {
            (BuffSelector::Id(x_0), BuffSelector::Id(a_0)) => {  },
            (BuffSelector::Class(x_0), BuffSelector::Class(a_0)) => {  },
            _ => {},
        }
    }

    proof fn lemma_fixed(&self, m1: &M1, m2: &M2, a: Self, b: Self) {
        let x = *self;
        match (x, a, b) {
            (BuffSelector::Id(x_0), BuffSelector::Id(a_0), BuffSelector::Id(b_0)) => {  },
            (BuffSelector::Class(x_0), BuffSelector::Class(a_0), BuffSelector::Class(b_0)) => {  },
            _ => {},
        }
    }
}

impl<M1: IdMap, M2: IdMap, M12: IdMap> RemapCompose<M1, M2, M12> for BuffSelector {
    proof fn lemma_compose(&self, m1: &M1, m2: &M2, m12: &M12, a: Self, b: Self) {
        let x = *self;
        match (x, a, b) {
            (BuffSelector::Id(x_0), BuffSelector::Id(a_0), BuffSelector::Id(b_0)) => {  },
            (BuffSelector::Class(x_0), BuffSelector::Class(a_0), BuffSelector::Class(b_0)) => {  },
            _ => {},
        }
    }
}

impl Contents for TeleportDest {
    open spec fn same_as(&self, other: Self) -> bool {
        let x = *self;
        let y = other;
        match (x, y) {
            (TeleportDest::ToTarget, TeleportDest::ToTarget) => true,
            (TeleportDest::ToPoint(x_0), TeleportDest::ToPoint(y_0)) => x_0 == y_0,
            (TeleportDest::Offset(x_0, x_1), TeleportDest::Offset(y_0, y_1)) => x_0 == y_0 && x_1.same_as(y_1),
            (TeleportDest::Home, TeleportDest::Home) => true,
            _ => false,
        }
    }
}

impl<M: IdMap> RemapIds<M> for TeleportDest {
    open spec fn remap_check(&self, m: &M) -> Result<(), M::Error> {
        let x = *self;
        match x {
            TeleportDest::ToTarget => Ok(()),
            TeleportDest::ToPoint(x_0) => Ok(()),
            TeleportDest::Offset(x_0, x_1) => then(x_1.remap_check(m), Ok(())),
            TeleportDest::Home => Ok(()),
        }
    }

    open spec fn remaps_to(&self, m: &M, new: Self) -> bool {
        let x = *self;
        let y = new;
        match (x, y) {
            (TeleportDest::ToTarget, TeleportDest::ToTarget) => true,
            (TeleportDest::ToPoint(x_0), TeleportDest::ToPoint(y_0)) => x_0 == y_0,
            (TeleportDest::Offset(x_0, x_1), TeleportDest::Offset(y_0, y_1)) => x_0 == y_0 && x_1.remaps_to(m, y_1),
            (TeleportDest::Home, TeleportDest::Home) => true,
            _ => false,
        }
    }

    open spec fn walked_to(&self, m: &M, new: Self) -> bool {
        let x = *self;
        let y = new;
        match (x, y) {
            (TeleportDest::ToTarget, TeleportDest::ToTarget) => true,
            (TeleportDest::ToPoint(x_0), TeleportDest::ToPoint(y_0)) => x_0 == y_0 && true,
            (TeleportDest::Offset(x_0, x_1), TeleportDest::Offset(y_0, y_1)) => x_0 == y_0 && (if (x_1.remap_check(m)) is Err { x_1.walked_to(m, y_1) } else { x_1.remaps_to(m, y_1) && true }),
            (TeleportDest::Home, TeleportDest::Home) => true,
            _ => false,
        }
    }

    #[verifier::rlimit(60)]
    #[verifier::spinoff_prover]
    fn remap_ids(&mut self, m: &M) -> (r: Result<(), M::Error>) {
        let x = self;
        match x {
            TeleportDest::ToTarget => {
            },
            TeleportDest::ToPoint(_) => {
            },
            TeleportDest::Offset(_, x_1) => {
                let r = x_1.remap_ids(m);
                if r.is_err() {
                    return r;
                }
            },
            TeleportDest::Home => {
            },
        }
        Ok(())
    }

    proof fn lemma_total(&self, m: &M) {
        let x = *self;
        match x {
            TeleportDest::ToTarget => {  },
            TeleportDest::ToPoint(x_0) => {  },
            TeleportDest::Offset(x_0, x_1) => { x_1.lemma_total(m); },
            TeleportDest::Home => {  },
        }
    }

    proof fn lemma_identity(&self, m: &M, new: Self) {
        let x = *self;
        let y = new;
        match (x, y) {
            (TeleportDest::ToTarget, TeleportDest::ToTarget) => {  },
            (TeleportDest::ToPoint(x_0), TeleportDest::ToPoint(y_0)) => {  },
            (TeleportDest::Offset(x_0, x_1), TeleportDest::Offset(y_0, y_1)) => { x_1.lemma_identity(m, y_1); },
            (TeleportDest::Home, TeleportDest::Home) => {  },
            _ => {},
        }
    }

    proof fn lemma_stable(&self, m: &M, a: Self, b: Self) {
        let x = *self;
        match (x, a, b) {
            (TeleportDest::ToTarget, TeleportDest::ToTarget, TeleportDest::ToTarget) => {  },
            (TeleportDest::ToPoint(x_0), TeleportDest::ToPoint(a_0), TeleportDest::ToPoint(b_0)) => {  },
            (TeleportDest::Offset(x_0, x_1), TeleportDest::Offset(a_0, a_1), TeleportDest::Offset(b_0, b_1)) => { x_1.lemma_stable(m, a_1, b_1); },
            (TeleportDest::Home, TeleportDest::Home, TeleportDest::Home) => {  },
            _ => {},
        }
    }

    #[verifier::rlimit(60)]
    #[verifier::spinoff_prover]
    proof fn lemma_walk_keeps(&self, m: &M, new: Self) {
        let x = *self;
        let y = new;
        match (x, y) {
            (TeleportDest::ToTarget, TeleportDest::ToTarget) => {  },
            (TeleportDest::ToPoint(x_0), TeleportDest::ToPoint(y_0)) => {  },
            (TeleportDest::Offset(x_0, x_1), TeleportDest::Offset(y_0, y_1)) => { if (x_1.remap_check(m)) is Err { x_1.lemma_walk_keeps(m, y_1); } else { x_1.lemma_identity(m, y_1);  } },
            (TeleportDest::Home, TeleportDest::Home) => {  },
            _ => {},
        }
    }

    proof fn lemma_same_refl(&self, m: &M) {
        let x = *self;
        match x {
            TeleportDest::ToTarget => {  },
            TeleportDest::ToPoint(x_0) => {  },
            TeleportDest::Offset(x_0, x_1) => { x_1.lemma_same_refl(m); },
            TeleportDest::Home => {  },
        }
    }
}

impl<M1: IdMap, M2: IdMap> RemapPair<M1, M2> for TeleportDest {
    proof fn lemma_lands(&self, m1: &M1, m2: &M2, a: Self) {
        let x = *self;
        match (x, a) {
            (TeleportDest::ToTarget, TeleportDest::ToTarget) => {  },
            (TeleportDest::ToPoint(x_0), TeleportDest::ToPoint(a_0)) => {  },
            (TeleportDest::Offset(x_0, x_1), TeleportDest::Offset(a_0, a_1)) => { x_1.lemma_lands(m1, m2, a_1); },
            (TeleportDest::Home, TeleportDest::Home) => {  },
            _ => {},
        }
    }

    proof fn lemma_fixed(&self, m1: &M1, m2: &M2, a: Self, b: Self) {
        let x = *self;
        match (x, a, b) {
            (TeleportDest::ToTarget, TeleportDest::ToTarget, TeleportDest::ToTarget) => {  },
            (TeleportDest::ToPoint(x_0), TeleportDest::ToPoint(a_0), TeleportDest::ToPoint(b_0)) => {  },
            (TeleportDest::Offset(x_0, x_1), TeleportDest::Offset(a_0, a_1), TeleportDest::Offset(b_0, b_1)) => { x_1.lemma_fixed(m1, m2, a_1, b_1); },
            (TeleportDest::Home, TeleportDest::Home, TeleportDest::Home) => {  },
            _ => {},
        }
    }
}

impl<M1: IdMap, M2: IdMap, M12: IdMap> RemapCompose<M1, M2, M12> for TeleportDest {
    proof fn lemma_compose(&self, m1: &M1, m2: &M2, m12: &M12, a: Self, b: Self) {
        let x = *self;
        match (x, a, b) {
            (TeleportDest::ToTarget, TeleportDest::ToTarget, TeleportDest::ToTarget) => {  },
            (TeleportDest::ToPoint(x_0), TeleportDest::ToPoint(a_0), TeleportDest::ToPoint(b_0)) => {  },
            (TeleportDest::Offset(x_0, x_1), TeleportDest::Offset(a_0, a_1), TeleportDest::Offset(b_0, b_1)) => { x_1.lemma_compose(m1, m2, m12, a_1, b_1); },
            (TeleportDest::Home, TeleportDest::Home, TeleportDest::Home) => {  },
            _ => {},
        }
    }
}

impl Contents for SpawnPattern {
    open spec fn same_as(&self, other: Self) -> bool {
        let x = *self;
        let y = other;
        match (x, y) {
            (SpawnPattern::Single, SpawnPattern::Single) => true,
            (SpawnPattern::Radial { count: x_count }, SpawnPattern::Radial { count: y_count }) => x_count.same_as(y_count),
            (SpawnPattern::Arc { count: x_count, spread: x_spread }, SpawnPattern::Arc { count: y_count, spread: y_spread }) => x_count.same_as(y_count) && x_spread.same_as(y_spread),
            _ => false,
        }
    }
}

impl<M: IdMap> RemapIds<M> for SpawnPattern {
    open spec fn remap_check(&self, m: &M) -> Result<(), M::Error> {
        let x = *self;
        match x {
            SpawnPattern::Single => Ok(()),
            SpawnPattern::Radial { count: x_count } => then(x_count.remap_check(m), Ok(())),
            SpawnPattern::Arc { count: x_count, spread: x_spread } => then(x_count.remap_check(m), x_spread.remap_check(m)),
        }
    }

    open spec fn remaps_to(&self, m: &M, new: Self) -> bool {
        let x = *self;
        let y = new;
        match (x, y) {
            (SpawnPattern::Single, SpawnPattern::Single) => true,
            (SpawnPattern::Radial { count: x_count }, SpawnPattern::Radial { count: y_count }) => x_count.remaps_to(m, y_count),
            (SpawnPattern::Arc { count: x_count, spread: x_spread }, SpawnPattern::Arc { count: y_count, spread: y_spread }) => x_count.remaps_to(m, y_count) && x_spread.remaps_to(m, y_spread),
            _ => false,
        }
    }

    open spec fn walked_to(&self, m: &M, new: Self) -> bool {
        let x = *self;
        let y = new;
        match (x, y) {
            (SpawnPattern::Single, SpawnPattern::Single) => true,
            (SpawnPattern::Radial { count: x_count }, SpawnPattern::Radial { count: y_count }) => (if (x_count.remap_check(m)) is Err { x_count.walked_to(m, y_count) } else { x_count.remaps_to(m, y_count) && true }),
            (SpawnPattern::Arc { count: x_count, spread: x_spread }, SpawnPattern::Arc { count: y_count, spread: y_spread }) => (if (x_count.remap_check(m)) is Err { x_count.walked_to(m, y_count) && x_spread == y_spread } else { x_count.remaps_to(m, y_count) && (if (x_spread.remap_check(m)) is Err { x_spread.walked_to(m, y_spread) } else { x_spread.remaps_to(m, y_spread) && true }) }),
            _ => false,
        }
    }

    #[verifier::rlimit(60)]
    #[verifier::spinoff_prover]
    fn remap_ids(&mut self, m: &M) -> (r: Result<(), M::Error>) {
        let x = self;
        match x {
            SpawnPattern::Single => {
            },
            SpawnPattern::Radial { count: x_count } => {
                let r = x_count.remap_ids(m);
                if r.is_err() {
                    return r;
                }
            },
            SpawnPattern::Arc { count: x_count, spread: x_spread } => {
                let r = x_count.remap_ids(m);
                if r.is_err() {
                    return r;
                }
                let r = x_spread.remap_ids(m);
                if r.is_err() {
                    return r;
                }
            },
        }
        Ok(())
    }

    proof fn lemma_total(&self, m: &M) {
        let x = *self;
        match x {
            SpawnPattern::Single => {  },
            SpawnPattern::Radial { count: x_count } => { x_count.lemma_total(m); },
            SpawnPattern::Arc { count: x_count, spread: x_spread } => { x_count.lemma_total(m); x_spread.lemma_total(m); },
        }
    }

    proof fn lemma_identity(&self, m: &M, new: Self) {
        let x = *self;
        let y = new;
        match (x, y) {
            (SpawnPattern::Single, SpawnPattern::Single) => {  },
            (SpawnPattern::Radial { count: x_count }, SpawnPattern::Radial { count: y_count }) => { x_count.lemma_identity(m, y_count); },
            (SpawnPattern::Arc { count: x_count, spread: x_spread }, SpawnPattern::Arc { count: y_count, spread: y_spread }) => { x_count.lemma_identity(m, y_count); x_spread.lemma_identity(m, y_spread); },
            _ => {},
        }
    }

    proof fn lemma_stable(&self, m: &M, a: Self, b: Self) {
        let x = *self;
        match (x, a, b) {
            (SpawnPattern::Single, SpawnPattern::Single, SpawnPattern::Single) => {  },
            (SpawnPattern::Radial { count: x_count }, SpawnPattern::Radial { count: a_count }, SpawnPattern::Radial { count: b_count }) => { x_count.lemma_stable(m, a_count, b_count); },
            (SpawnPattern::Arc { count: x_count, spread: x_spread }, SpawnPattern::Arc { count: a_count, spread: a_spread }, SpawnPattern::Arc { count: b_count, spread: b_spread }) => { x_count.lemma_stable(m, a_count, b_count); x_spread.lemma_stable(m, a_spread, b_spread); },
            _ => {},
        }
    }

    #[verifier::rlimit(60)]
    #[verifier::spinoff_prover]
    proof fn lemma_walk_keeps(&self, m: &M, new: Self) {
        let x = *self;
        let y = new;
        match (x, y) {
            (SpawnPattern::Single, SpawnPattern::Single) => {  },
            (SpawnPattern::Radial { count: x_count }, SpawnPattern::Radial { count: y_count }) => { if (x_count.remap_check(m)) is Err { x_count.lemma_walk_keeps(m, y_count); } else { x_count.lemma_identity(m, y_count);  } },
            (SpawnPattern::Arc { count: x_count, spread: x_spread }, SpawnPattern::Arc { count: y_count, spread: y_spread }) => { if (x_count.remap_check(m)) is Err { x_count.lemma_walk_keeps(m, y_count); x_spread.lemma_same_refl(m); } else { x_count.lemma_identity(m, y_count); if (x_spread.remap_check(m)) is Err { x_spread.lemma_walk_keeps(m, y_spread); } else { x_spread.lemma_identity(m, y_spread);  } } },
            _ => {},
        }
    }

    proof fn lemma_same_refl(&self, m: &M) {
        let x = *self;
        match x {
            SpawnPattern::Single => {  },
            SpawnPattern::Radial { count: x_count } => { x_count.lemma_same_refl(m); },
            SpawnPattern::Arc { count: x_count, spread: x_spread } => { x_count.lemma_same_refl(m); x_spread.lemma_same_refl(m); },
        }
    }
}

impl<M1: IdMap, M2: IdMap> RemapPair<M1, M2> for SpawnPattern {
    proof fn lemma_lands(&self, m1: &M1, m2: &M2, a: Self) {
        let x = *self;
        match (x, a) {
            (SpawnPattern::Single, SpawnPattern::Single) => {  },
            (SpawnPattern::Radial { count: x_count }, SpawnPattern::Radial { count: a_count }) => { x_count.lemma_lands(m1, m2, a_count); },
            (SpawnPattern::Arc { count: x_count, spread: x_spread }, SpawnPattern::Arc { count: a_count, spread: a_spread }) => { x_count.lemma_lands(m1, m2, a_count); x_spread.lemma_lands(m1, m2, a_spread); },
            _ => {},
        }
    }

    proof fn lemma_fixed(&self, m1: &M1, m2: &M2, a: Self, b: Self) {
        let x = *self;
        match (x, a, b) {
            (SpawnPattern::Single, SpawnPattern::Single, SpawnPattern::Single) => {  },
            (SpawnPattern::Radial { count: x_count }, SpawnPattern::Radial { count: a_count }, SpawnPattern::Radial { count: b_count }) => { x_count.lemma_fixed(m1, m2, a_count, b_count); },
            (SpawnPattern::Arc { count: x_count, spread: x_spread }, SpawnPattern::Arc { count: a_count, spread: a_spread }, SpawnPattern::Arc { count: b_count, spread: b_spread }) => { x_count.lemma_fixed(m1, m2, a_count, b_count); x_spread.lemma_fixed(m1, m2, a_spread, b_spread); },
            _ => {},
        }
    }
}

impl<M1: IdMap, M2: IdMap, M12: IdMap> RemapCompose<M1, M2, M12> for SpawnPattern {
    proof fn lemma_compose(&self, m1: &M1, m2: &M2, m12: &M12, a: Self, b: Self) {
        let x = *self;
        match (x, a, b) {
            (SpawnPattern::Single, SpawnPattern::Single, SpawnPattern::Single) => {  },
            (SpawnPattern::Radial { count: x_count }, SpawnPattern::Radial { count: a_count }, SpawnPattern::Radial { count: b_count }) => { x_count.lemma_compose(m1, m2, m12, a_count, b_count); },
            (SpawnPattern::Arc { count: x_count, spread: x_spread }, SpawnPattern::Arc { count: a_count, spread: a_spread }, SpawnPattern::Arc { count: b_count, spread: b_spread }) => { x_count.lemma_compose(m1, m2, m12, a_count, b_count); x_spread.lemma_compose(m1, m2, m12, a_spread, b_spread); },
            _ => {},
        }
    }
}

impl Contents for PendingFilter {
    open spec fn same_as(&self, other: Self) -> bool {
        let x = *self;
        let y = other;
        match (x, y) {
            (PendingFilter::FromCaster, PendingFilter::FromCaster) => true,
            (PendingFilter::OriginTag(x_0), PendingFilter::OriginTag(y_0)) => x_0 == y_0,
            _ => false,
        }
    }
}

impl<M: IdMap> RemapIds<M> for PendingFilter {
    open spec fn remap_check(&self, m: &M) -> Result<(), M::Error> {
        let x = *self;
        match x {
            PendingFilter::FromCaster => Ok(()),
            PendingFilter::OriginTag(x_0) => then(leaf(m.tag_spec(x_0)), Ok(())),
        }
    }

    open spec fn remaps_to(&self, m: &M, new: Self) -> bool {
        let x = *self;
        let y = new;
        match (x, y) {
            (PendingFilter::FromCaster, PendingFilter::FromCaster) => true,
            (PendingFilter::OriginTag(x_0), PendingFilter::OriginTag(y_0)) => m.tag_spec(x_0) == Ok::<TagId, M::Error>(y_0),
            _ => false,
        }
    }

    open spec fn walked_to(&self, m: &M, new: Self) -> bool {
        let x = *self;
        let y = new;
        match (x, y) {
            (PendingFilter::FromCaster, PendingFilter::FromCaster) => true,
            (PendingFilter::OriginTag(x_0), PendingFilter::OriginTag(y_0)) => (if (leaf(m.tag_spec(x_0))) is Err { x_0 == y_0 } else { m.tag_spec(x_0) == Ok::<TagId, M::Error>(y_0) && true }),
            _ => false,
        }
    }

    #[verifier::rlimit(60)]
    #[verifier::spinoff_prover]
    fn remap_ids(&mut self, m: &M) -> (r: Result<(), M::Error>) {
        let x = self;
        match x {
            PendingFilter::FromCaster => {
            },
            PendingFilter::OriginTag(x_0) => {
                match m.tag(*x_0) {
                    Ok(v) => { *x_0 = v; },
                    Err(e) => { return Err(e); },
                }
            },
        }
        Ok(())
    }

    proof fn lemma_total(&self, m: &M) {
        let x = *self;
        match x {
            PendingFilter::FromCaster => {  },
            PendingFilter::OriginTag(x_0) => {  },
        }
    }

    proof fn lemma_identity(&self, m: &M, new: Self) {
        let x = *self;
        let y = new;
        match (x, y) {
            (PendingFilter::FromCaster, PendingFilter::FromCaster) => {  },
            (PendingFilter::OriginTag(x_0), PendingFilter::OriginTag(y_0)) => {  },
            _ => {},
        }
    }

    proof fn lemma_stable(&self, m: &M, a: Self, b: Self) {
        let x = *self;
        match (x, a, b) {
            (PendingFilter::FromCaster, PendingFilter::FromCaster, PendingFilter::FromCaster) => {  },
            (PendingFilter::OriginTag(x_0), PendingFilter::OriginTag(a_0), PendingFilter::OriginTag(b_0)) => {  },
            _ => {},
        }
    }

    #[verifier::rlimit(60)]
    #[verifier::spinoff_prover]
    proof fn lemma_walk_keeps(&self, m: &M, new: Self) {
        let x = *self;
        let y = new;
        match (x, y) {
            (PendingFilter::FromCaster, PendingFilter::FromCaster) => {  },
            (PendingFilter::OriginTag(x_0), PendingFilter::OriginTag(y_0)) => { if (leaf(m.tag_spec(x_0))) is Err {  } else {   } },
            _ => {},
        }
    }

    proof fn lemma_same_refl(&self, m: &M) {
        let x = *self;
        match x {
            PendingFilter::FromCaster => {  },
            PendingFilter::OriginTag(x_0) => {  },
        }
    }
}

impl<M1: IdMap, M2: IdMap> RemapPair<M1, M2> for PendingFilter {
    proof fn lemma_lands(&self, m1: &M1, m2: &M2, a: Self) {
        let x = *self;
        match (x, a) {
            (PendingFilter::FromCaster, PendingFilter::FromCaster) => {  },
            (PendingFilter::OriginTag(x_0), PendingFilter::OriginTag(a_0)) => {  },
            _ => {},
        }
    }

    proof fn lemma_fixed(&self, m1: &M1, m2: &M2, a: Self, b: Self) {
        let x = *self;
        match (x, a, b) {
            (PendingFilter::FromCaster, PendingFilter::FromCaster, PendingFilter::FromCaster) => {  },
            (PendingFilter::OriginTag(x_0), PendingFilter::OriginTag(a_0), PendingFilter::OriginTag(b_0)) => {  },
            _ => {},
        }
    }
}

impl<M1: IdMap, M2: IdMap, M12: IdMap> RemapCompose<M1, M2, M12> for PendingFilter {
    proof fn lemma_compose(&self, m1: &M1, m2: &M2, m12: &M12, a: Self, b: Self) {
        let x = *self;
        match (x, a, b) {
            (PendingFilter::FromCaster, PendingFilter::FromCaster, PendingFilter::FromCaster) => {  },
            (PendingFilter::OriginTag(x_0), PendingFilter::OriginTag(a_0), PendingFilter::OriginTag(b_0)) => {  },
            _ => {},
        }
    }
}

impl Contents for BodyKind {
    open spec fn same_as(&self, other: Self) -> bool {
        let x = *self;
        let y = other;
        match (x, y) {
            (BodyKind::Missile { speed: x_speed, range: x_range, homing: x_homing, pierce: x_pierce }, BodyKind::Missile { speed: y_speed, range: y_range, homing: y_homing, pierce: y_pierce }) => x_speed.same_as(y_speed) && x_range.same_as(y_range) && x_homing == y_homing && x_pierce.same_as(y_pierce),
            (BodyKind::Unit { health: x_health, duration: x_duration }, BodyKind::Unit { health: y_health, duration: y_duration }) => x_health.same_as(y_health) && x_duration.same_as(y_duration),
            (BodyKind::Zone { radius: x_radius, duration: x_duration, tick: x_tick }, BodyKind::Zone { radius: y_radius, duration: y_duration, tick: y_tick }) => x_radius.same_as(y_radius) && x_duration.same_as(y_duration) && x_tick.same_as(y_tick),
            _ => false,
        }
    }
}

impl<M: IdMap> RemapIds<M> for BodyKind {
    open spec fn remap_check(&self, m: &M) -> Result<(), M::Error> {
        let x = *self;
        match x {
            BodyKind::Missile { speed: x_speed, range: x_range, homing: x_homing, pierce: x_pierce } => then(x_speed.remap_check(m), then(x_range.remap_check(m), x_pierce.remap_check(m))),
            BodyKind::Unit { health: x_health, duration: x_duration } => then(x_health.remap_check(m), x_duration.remap_check(m)),
            BodyKind::Zone { radius: x_radius, duration: x_duration, tick: x_tick } => then(x_radius.remap_check(m), then(x_duration.remap_check(m), x_tick.remap_check(m))),
        }
    }

    open spec fn remaps_to(&self, m: &M, new: Self) -> bool {
        let x = *self;
        let y = new;
        match (x, y) {
            (BodyKind::Missile { speed: x_speed, range: x_range, homing: x_homing, pierce: x_pierce }, BodyKind::Missile { speed: y_speed, range: y_range, homing: y_homing, pierce: y_pierce }) => x_speed.remaps_to(m, y_speed) && x_range.remaps_to(m, y_range) && x_homing == y_homing && x_pierce.remaps_to(m, y_pierce),
            (BodyKind::Unit { health: x_health, duration: x_duration }, BodyKind::Unit { health: y_health, duration: y_duration }) => x_health.remaps_to(m, y_health) && x_duration.remaps_to(m, y_duration),
            (BodyKind::Zone { radius: x_radius, duration: x_duration, tick: x_tick }, BodyKind::Zone { radius: y_radius, duration: y_duration, tick: y_tick }) => x_radius.remaps_to(m, y_radius) && x_duration.remaps_to(m, y_duration) && x_tick.remaps_to(m, y_tick),
            _ => false,
        }
    }

    open spec fn walked_to(&self, m: &M, new: Self) -> bool {
        let x = *self;
        let y = new;
        match (x, y) {
            (BodyKind::Missile { speed: x_speed, range: x_range, homing: x_homing, pierce: x_pierce }, BodyKind::Missile { speed: y_speed, range: y_range, homing: y_homing, pierce: y_pierce }) => x_homing == y_homing && (if (x_speed.remap_check(m)) is Err { x_speed.walked_to(m, y_speed) && x_range == y_range && x_pierce == y_pierce } else { x_speed.remaps_to(m, y_speed) && (if (x_range.remap_check(m)) is Err { x_range.walked_to(m, y_range) && x_pierce == y_pierce } else { x_range.remaps_to(m, y_range) && (if (x_pierce.remap_check(m)) is Err { x_pierce.walked_to(m, y_pierce) } else { x_pierce.remaps_to(m, y_pierce) && true }) }) }),
            (BodyKind::Unit { health: x_health, duration: x_duration }, BodyKind::Unit { health: y_health, duration: y_duration }) => (if (x_health.remap_check(m)) is Err { x_health.walked_to(m, y_health) && x_duration == y_duration } else { x_health.remaps_to(m, y_health) && (if (x_duration.remap_check(m)) is Err { x_duration.walked_to(m, y_duration) } else { x_duration.remaps_to(m, y_duration) && true }) }),
            (BodyKind::Zone { radius: x_radius, duration: x_duration, tick: x_tick }, BodyKind::Zone { radius: y_radius, duration: y_duration, tick: y_tick }) => (if (x_radius.remap_check(m)) is Err { x_radius.walked_to(m, y_radius) && x_duration == y_duration && x_tick == y_tick } else { x_radius.remaps_to(m, y_radius) && (if (x_duration.remap_check(m)) is Err { x_duration.walked_to(m, y_duration) && x_tick == y_tick } else { x_duration.remaps_to(m, y_duration) && (if (x_tick.remap_check(m)) is Err { x_tick.walked_to(m, y_tick) } else { x_tick.remaps_to(m, y_tick) && true }) }) }),
            _ => false,
        }
    }

    #[verifier::rlimit(60)]
    #[verifier::spinoff_prover]
    fn remap_ids(&mut self, m: &M) -> (r: Result<(), M::Error>) {
        let x = self;
        match x {
            BodyKind::Missile { speed: x_speed, range: x_range, homing: _, pierce: x_pierce } => {
                let r = x_speed.remap_ids(m);
                if r.is_err() {
                    return r;
                }
                let r = x_range.remap_ids(m);
                if r.is_err() {
                    return r;
                }
                let r = x_pierce.remap_ids(m);
                if r.is_err() {
                    return r;
                }
            },
            BodyKind::Unit { health: x_health, duration: x_duration } => {
                let r = x_health.remap_ids(m);
                if r.is_err() {
                    return r;
                }
                let r = x_duration.remap_ids(m);
                if r.is_err() {
                    return r;
                }
            },
            BodyKind::Zone { radius: x_radius, duration: x_duration, tick: x_tick } => {
                let r = x_radius.remap_ids(m);
                if r.is_err() {
                    return r;
                }
                let r = x_duration.remap_ids(m);
                if r.is_err() {
                    return r;
                }
                let r = x_tick.remap_ids(m);
                if r.is_err() {
                    return r;
                }
            },
        }
        Ok(())
    }

    proof fn lemma_total(&self, m: &M) {
        let x = *self;
        match x {
            BodyKind::Missile { speed: x_speed, range: x_range, homing: x_homing, pierce: x_pierce } => { x_speed.lemma_total(m); x_range.lemma_total(m); x_pierce.lemma_total(m); },
            BodyKind::Unit { health: x_health, duration: x_duration } => { x_health.lemma_total(m); x_duration.lemma_total(m); },
            BodyKind::Zone { radius: x_radius, duration: x_duration, tick: x_tick } => { x_radius.lemma_total(m); x_duration.lemma_total(m); x_tick.lemma_total(m); },
        }
    }

    proof fn lemma_identity(&self, m: &M, new: Self) {
        let x = *self;
        let y = new;
        match (x, y) {
            (BodyKind::Missile { speed: x_speed, range: x_range, homing: x_homing, pierce: x_pierce }, BodyKind::Missile { speed: y_speed, range: y_range, homing: y_homing, pierce: y_pierce }) => { x_speed.lemma_identity(m, y_speed); x_range.lemma_identity(m, y_range); x_pierce.lemma_identity(m, y_pierce); },
            (BodyKind::Unit { health: x_health, duration: x_duration }, BodyKind::Unit { health: y_health, duration: y_duration }) => { x_health.lemma_identity(m, y_health); x_duration.lemma_identity(m, y_duration); },
            (BodyKind::Zone { radius: x_radius, duration: x_duration, tick: x_tick }, BodyKind::Zone { radius: y_radius, duration: y_duration, tick: y_tick }) => { x_radius.lemma_identity(m, y_radius); x_duration.lemma_identity(m, y_duration); x_tick.lemma_identity(m, y_tick); },
            _ => {},
        }
    }

    proof fn lemma_stable(&self, m: &M, a: Self, b: Self) {
        let x = *self;
        match (x, a, b) {
            (BodyKind::Missile { speed: x_speed, range: x_range, homing: x_homing, pierce: x_pierce }, BodyKind::Missile { speed: a_speed, range: a_range, homing: a_homing, pierce: a_pierce }, BodyKind::Missile { speed: b_speed, range: b_range, homing: b_homing, pierce: b_pierce }) => { x_speed.lemma_stable(m, a_speed, b_speed); x_range.lemma_stable(m, a_range, b_range); x_pierce.lemma_stable(m, a_pierce, b_pierce); },
            (BodyKind::Unit { health: x_health, duration: x_duration }, BodyKind::Unit { health: a_health, duration: a_duration }, BodyKind::Unit { health: b_health, duration: b_duration }) => { x_health.lemma_stable(m, a_health, b_health); x_duration.lemma_stable(m, a_duration, b_duration); },
            (BodyKind::Zone { radius: x_radius, duration: x_duration, tick: x_tick }, BodyKind::Zone { radius: a_radius, duration: a_duration, tick: a_tick }, BodyKind::Zone { radius: b_radius, duration: b_duration, tick: b_tick }) => { x_radius.lemma_stable(m, a_radius, b_radius); x_duration.lemma_stable(m, a_duration, b_duration); x_tick.lemma_stable(m, a_tick, b_tick); },
            _ => {},
        }
    }

    #[verifier::rlimit(60)]
    #[verifier::spinoff_prover]
    proof fn lemma_walk_keeps(&self, m: &M, new: Self) {
        let x = *self;
        let y = new;
        match (x, y) {
            (BodyKind::Missile { speed: x_speed, range: x_range, homing: x_homing, pierce: x_pierce }, BodyKind::Missile { speed: y_speed, range: y_range, homing: y_homing, pierce: y_pierce }) => { if (x_speed.remap_check(m)) is Err { x_speed.lemma_walk_keeps(m, y_speed); x_range.lemma_same_refl(m); x_pierce.lemma_same_refl(m); } else { x_speed.lemma_identity(m, y_speed); if (x_range.remap_check(m)) is Err { x_range.lemma_walk_keeps(m, y_range); x_pierce.lemma_same_refl(m); } else { x_range.lemma_identity(m, y_range); if (x_pierce.remap_check(m)) is Err { x_pierce.lemma_walk_keeps(m, y_pierce); } else { x_pierce.lemma_identity(m, y_pierce);  } } } },
            (BodyKind::Unit { health: x_health, duration: x_duration }, BodyKind::Unit { health: y_health, duration: y_duration }) => { if (x_health.remap_check(m)) is Err { x_health.lemma_walk_keeps(m, y_health); x_duration.lemma_same_refl(m); } else { x_health.lemma_identity(m, y_health); if (x_duration.remap_check(m)) is Err { x_duration.lemma_walk_keeps(m, y_duration); } else { x_duration.lemma_identity(m, y_duration);  } } },
            (BodyKind::Zone { radius: x_radius, duration: x_duration, tick: x_tick }, BodyKind::Zone { radius: y_radius, duration: y_duration, tick: y_tick }) => { if (x_radius.remap_check(m)) is Err { x_radius.lemma_walk_keeps(m, y_radius); x_duration.lemma_same_refl(m); x_tick.lemma_same_refl(m); } else { x_radius.lemma_identity(m, y_radius); if (x_duration.remap_check(m)) is Err { x_duration.lemma_walk_keeps(m, y_duration); x_tick.lemma_same_refl(m); } else { x_duration.lemma_identity(m, y_duration); if (x_tick.remap_check(m)) is Err { x_tick.lemma_walk_keeps(m, y_tick); } else { x_tick.lemma_identity(m, y_tick);  } } } },
            _ => {},
        }
    }

    proof fn lemma_same_refl(&self, m: &M) {
        let x = *self;
        match x {
            BodyKind::Missile { speed: x_speed, range: x_range, homing: x_homing, pierce: x_pierce } => { x_speed.lemma_same_refl(m); x_range.lemma_same_refl(m); x_pierce.lemma_same_refl(m); },
            BodyKind::Unit { health: x_health, duration: x_duration } => { x_health.lemma_same_refl(m); x_duration.lemma_same_refl(m); },
            BodyKind::Zone { radius: x_radius, duration: x_duration, tick: x_tick } => { x_radius.lemma_same_refl(m); x_duration.lemma_same_refl(m); x_tick.lemma_same_refl(m); },
        }
    }
}

impl<M1: IdMap, M2: IdMap> RemapPair<M1, M2> for BodyKind {
    proof fn lemma_lands(&self, m1: &M1, m2: &M2, a: Self) {
        let x = *self;
        match (x, a) {
            (BodyKind::Missile { speed: x_speed, range: x_range, homing: x_homing, pierce: x_pierce }, BodyKind::Missile { speed: a_speed, range: a_range, homing: a_homing, pierce: a_pierce }) => { x_speed.lemma_lands(m1, m2, a_speed); x_range.lemma_lands(m1, m2, a_range); x_pierce.lemma_lands(m1, m2, a_pierce); },
            (BodyKind::Unit { health: x_health, duration: x_duration }, BodyKind::Unit { health: a_health, duration: a_duration }) => { x_health.lemma_lands(m1, m2, a_health); x_duration.lemma_lands(m1, m2, a_duration); },
            (BodyKind::Zone { radius: x_radius, duration: x_duration, tick: x_tick }, BodyKind::Zone { radius: a_radius, duration: a_duration, tick: a_tick }) => { x_radius.lemma_lands(m1, m2, a_radius); x_duration.lemma_lands(m1, m2, a_duration); x_tick.lemma_lands(m1, m2, a_tick); },
            _ => {},
        }
    }

    proof fn lemma_fixed(&self, m1: &M1, m2: &M2, a: Self, b: Self) {
        let x = *self;
        match (x, a, b) {
            (BodyKind::Missile { speed: x_speed, range: x_range, homing: x_homing, pierce: x_pierce }, BodyKind::Missile { speed: a_speed, range: a_range, homing: a_homing, pierce: a_pierce }, BodyKind::Missile { speed: b_speed, range: b_range, homing: b_homing, pierce: b_pierce }) => { x_speed.lemma_fixed(m1, m2, a_speed, b_speed); x_range.lemma_fixed(m1, m2, a_range, b_range); x_pierce.lemma_fixed(m1, m2, a_pierce, b_pierce); },
            (BodyKind::Unit { health: x_health, duration: x_duration }, BodyKind::Unit { health: a_health, duration: a_duration }, BodyKind::Unit { health: b_health, duration: b_duration }) => { x_health.lemma_fixed(m1, m2, a_health, b_health); x_duration.lemma_fixed(m1, m2, a_duration, b_duration); },
            (BodyKind::Zone { radius: x_radius, duration: x_duration, tick: x_tick }, BodyKind::Zone { radius: a_radius, duration: a_duration, tick: a_tick }, BodyKind::Zone { radius: b_radius, duration: b_duration, tick: b_tick }) => { x_radius.lemma_fixed(m1, m2, a_radius, b_radius); x_duration.lemma_fixed(m1, m2, a_duration, b_duration); x_tick.lemma_fixed(m1, m2, a_tick, b_tick); },
            _ => {},
        }
    }
}

impl<M1: IdMap, M2: IdMap, M12: IdMap> RemapCompose<M1, M2, M12> for BodyKind {
    proof fn lemma_compose(&self, m1: &M1, m2: &M2, m12: &M12, a: Self, b: Self) {
        let x = *self;
        match (x, a, b) {
            (BodyKind::Missile { speed: x_speed, range: x_range, homing: x_homing, pierce: x_pierce }, BodyKind::Missile { speed: a_speed, range: a_range, homing: a_homing, pierce: a_pierce }, BodyKind::Missile { speed: b_speed, range: b_range, homing: b_homing, pierce: b_pierce }) => { x_speed.lemma_compose(m1, m2, m12, a_speed, b_speed); x_range.lemma_compose(m1, m2, m12, a_range, b_range); x_pierce.lemma_compose(m1, m2, m12, a_pierce, b_pierce); },
            (BodyKind::Unit { health: x_health, duration: x_duration }, BodyKind::Unit { health: a_health, duration: a_duration }, BodyKind::Unit { health: b_health, duration: b_duration }) => { x_health.lemma_compose(m1, m2, m12, a_health, b_health); x_duration.lemma_compose(m1, m2, m12, a_duration, b_duration); },
            (BodyKind::Zone { radius: x_radius, duration: x_duration, tick: x_tick }, BodyKind::Zone { radius: a_radius, duration: a_duration, tick: a_tick }, BodyKind::Zone { radius: b_radius, duration: b_duration, tick: b_tick }) => { x_radius.lemma_compose(m1, m2, m12, a_radius, b_radius); x_duration.lemma_compose(m1, m2, m12, a_duration, b_duration); x_tick.lemma_compose(m1, m2, m12, a_tick, b_tick); },
            _ => {},
        }
    }
}

impl Contents for CollisionSpec {
    open spec fn same_as(&self, other: Self) -> bool {
        let x = *self;
        let y = other;
        x.filter.same_as(y.filter)
                && x.pierce.same_as(y.pierce)
                && x.through_walls == y.through_walls
    }
}

impl<M: IdMap> RemapIds<M> for CollisionSpec {
    open spec fn remap_check(&self, m: &M) -> Result<(), M::Error> {
        let x = *self;
        then(x.filter.remap_check(m), x.pierce.remap_check(m))
    }

    open spec fn remaps_to(&self, m: &M, new: Self) -> bool {
        let x = *self;
        let y = new;
        x.filter.remaps_to(m, y.filter)
                && x.pierce.remaps_to(m, y.pierce)
                && x.through_walls == y.through_walls
    }

    open spec fn walked_to(&self, m: &M, new: Self) -> bool {
        let x = *self;
        let y = new;
        x.through_walls == y.through_walls && (if (x.filter.remap_check(m)) is Err { x.filter.walked_to(m, y.filter) && x.pierce == y.pierce } else { x.filter.remaps_to(m, y.filter) && (if (x.pierce.remap_check(m)) is Err { x.pierce.walked_to(m, y.pierce) } else { x.pierce.remaps_to(m, y.pierce) && true }) })
    }

    #[verifier::rlimit(60)]
    #[verifier::spinoff_prover]
    fn remap_ids(&mut self, m: &M) -> (r: Result<(), M::Error>) {
        let x = self;
        let r = x.filter.remap_ids(m);
        if r.is_err() {
            return r;
        }
        let r = x.pierce.remap_ids(m);
        if r.is_err() {
            return r;
        }
        Ok(())
    }

    proof fn lemma_total(&self, m: &M) {
        let x = *self;
        x.filter.lemma_total(m);
        x.pierce.lemma_total(m);
    }

    proof fn lemma_identity(&self, m: &M, new: Self) {
        let x = *self;
        let y = new;
        x.filter.lemma_identity(m, y.filter);
        x.pierce.lemma_identity(m, y.pierce);
    }

    proof fn lemma_stable(&self, m: &M, a: Self, b: Self) {
        let x = *self;
        x.filter.lemma_stable(m, a.filter, b.filter);
        x.pierce.lemma_stable(m, a.pierce, b.pierce);
    }

    #[verifier::rlimit(60)]
    #[verifier::spinoff_prover]
    proof fn lemma_walk_keeps(&self, m: &M, new: Self) {
        let x = *self;
        let y = new;
        if (x.filter.remap_check(m)) is Err { x.filter.lemma_walk_keeps(m, y.filter); x.pierce.lemma_same_refl(m); } else { x.filter.lemma_identity(m, y.filter); if (x.pierce.remap_check(m)) is Err { x.pierce.lemma_walk_keeps(m, y.pierce); } else { x.pierce.lemma_identity(m, y.pierce);  } }
    }

    proof fn lemma_same_refl(&self, m: &M) {
        let x = *self;
        x.filter.lemma_same_refl(m); x.pierce.lemma_same_refl(m);
    }
}

impl<M1: IdMap, M2: IdMap> RemapPair<M1, M2> for CollisionSpec {
    proof fn lemma_lands(&self, m1: &M1, m2: &M2, a: Self) {
        let x = *self;
        x.filter.lemma_lands(m1, m2, a.filter);
        x.pierce.lemma_lands(m1, m2, a.pierce);
    }

    proof fn lemma_fixed(&self, m1: &M1, m2: &M2, a: Self, b: Self) {
        let x = *self;
        x.filter.lemma_fixed(m1, m2, a.filter, b.filter);
        x.pierce.lemma_fixed(m1, m2, a.pierce, b.pierce);
    }
}

impl<M1: IdMap, M2: IdMap, M12: IdMap> RemapCompose<M1, M2, M12> for CollisionSpec {
    proof fn lemma_compose(&self, m1: &M1, m2: &M2, m12: &M12, a: Self, b: Self) {
        let x = *self;
        x.filter.lemma_compose(m1, m2, m12, a.filter, b.filter);
        x.pierce.lemma_compose(m1, m2, m12, a.pierce, b.pierce);
    }
}

impl Contents for Modifier {
    open spec fn same_as(&self, other: Self) -> bool {
        let x = *self;
        let y = other;
        x.stat == y.stat
                && x.op == y.op
                && x.value.same_as(y.value)
    }
}

impl<M: IdMap> RemapIds<M> for Modifier {
    open spec fn remap_check(&self, m: &M) -> Result<(), M::Error> {
        let x = *self;
        then(leaf(m.stat_spec(x.stat)), x.value.remap_check(m))
    }

    open spec fn remaps_to(&self, m: &M, new: Self) -> bool {
        let x = *self;
        let y = new;
        m.stat_spec(x.stat) == Ok::<StatId, M::Error>(y.stat)
                && x.op == y.op
                && x.value.remaps_to(m, y.value)
    }

    open spec fn walked_to(&self, m: &M, new: Self) -> bool {
        let x = *self;
        let y = new;
        x.op == y.op && (if (leaf(m.stat_spec(x.stat))) is Err { x.stat == y.stat && x.value == y.value } else { m.stat_spec(x.stat) == Ok::<StatId, M::Error>(y.stat) && (if (x.value.remap_check(m)) is Err { x.value.walked_to(m, y.value) } else { x.value.remaps_to(m, y.value) && true }) })
    }

    #[verifier::rlimit(60)]
    #[verifier::spinoff_prover]
    fn remap_ids(&mut self, m: &M) -> (r: Result<(), M::Error>) {
        let x = self;
        match m.stat(x.stat) {
            Ok(v) => { x.stat = v; },
            Err(e) => { return Err(e); },
        }
        let r = x.value.remap_ids(m);
        if r.is_err() {
            return r;
        }
        Ok(())
    }

    proof fn lemma_total(&self, m: &M) {
        let x = *self;
        x.value.lemma_total(m);
    }

    proof fn lemma_identity(&self, m: &M, new: Self) {
        let x = *self;
        let y = new;
        x.value.lemma_identity(m, y.value);
    }

    proof fn lemma_stable(&self, m: &M, a: Self, b: Self) {
        let x = *self;
        x.value.lemma_stable(m, a.value, b.value);
    }

    #[verifier::rlimit(60)]
    #[verifier::spinoff_prover]
    proof fn lemma_walk_keeps(&self, m: &M, new: Self) {
        let x = *self;
        let y = new;
        if (leaf(m.stat_spec(x.stat))) is Err { x.value.lemma_same_refl(m); } else {  if (x.value.remap_check(m)) is Err { x.value.lemma_walk_keeps(m, y.value); } else { x.value.lemma_identity(m, y.value);  } }
    }

    proof fn lemma_same_refl(&self, m: &M) {
        let x = *self;
        x.value.lemma_same_refl(m);
    }
}

impl<M1: IdMap, M2: IdMap> RemapPair<M1, M2> for Modifier {
    proof fn lemma_lands(&self, m1: &M1, m2: &M2, a: Self) {
        let x = *self;
        x.value.lemma_lands(m1, m2, a.value);
    }

    proof fn lemma_fixed(&self, m1: &M1, m2: &M2, a: Self, b: Self) {
        let x = *self;
        x.value.lemma_fixed(m1, m2, a.value, b.value);
    }
}

impl<M1: IdMap, M2: IdMap, M12: IdMap> RemapCompose<M1, M2, M12> for Modifier {
    proof fn lemma_compose(&self, m1: &M1, m2: &M2, m12: &M12, a: Self, b: Self) {
        let x = *self;
        x.value.lemma_compose(m1, m2, m12, a.value, b.value);
    }
}

impl Contents for BuffSpec {
    open spec fn same_as(&self, other: Self) -> bool {
        let x = *self;
        let y = other;
        x.id == y.id
                && x.duration.same_as(y.duration)
                && x.stacking == y.stacking
                && x.max_stacks == y.max_stacks
                && x.modifiers.same_as(y.modifiers)
                && tags_same(x.tags@, y.tags@)
                && x.reactions.same_as(y.reactions)
                && impacts_same(x.on_apply@, y.on_apply@)
                && impacts_same(x.on_expire@, y.on_expire@)
                && impacts_same(x.on_remove@, y.on_remove@)
                && x.drop_on_death == y.drop_on_death
    }
}

impl<M: IdMap> RemapIds<M> for BuffSpec {
    open spec fn remap_check(&self, m: &M) -> Result<(), M::Error> {
        let x = *self;
        then(leaf(m.buff_spec(x.id)), then(x.duration.remap_check(m), then(x.modifiers.remap_check(m), then(tags_check(x.tags@, m), then(x.reactions.remap_check(m), then(impacts_check(x.on_apply@, m), then(impacts_check(x.on_expire@, m), impacts_check(x.on_remove@, m))))))))
    }

    open spec fn remaps_to(&self, m: &M, new: Self) -> bool {
        let x = *self;
        let y = new;
        m.buff_spec(x.id) == Ok::<BuffId, M::Error>(y.id)
                && x.duration.remaps_to(m, y.duration)
                && x.stacking == y.stacking
                && x.max_stacks == y.max_stacks
                && x.modifiers.remaps_to(m, y.modifiers)
                && tags_remaps(x.tags@, m, y.tags@)
                && x.reactions.remaps_to(m, y.reactions)
                && impacts_remaps(x.on_apply@, m, y.on_apply@)
                && impacts_remaps(x.on_expire@, m, y.on_expire@)
                && impacts_remaps(x.on_remove@, m, y.on_remove@)
                && x.drop_on_death == y.drop_on_death
    }

    open spec fn walked_to(&self, m: &M, new: Self) -> bool {
        let x = *self;
        let y = new;
        x.stacking == y.stacking && x.max_stacks == y.max_stacks && x.drop_on_death == y.drop_on_death && (if (leaf(m.buff_spec(x.id))) is Err { x.id == y.id && x.duration == y.duration && x.modifiers == y.modifiers && x.tags == y.tags && x.reactions == y.reactions && x.on_apply == y.on_apply && x.on_expire == y.on_expire && x.on_remove == y.on_remove } else { m.buff_spec(x.id) == Ok::<BuffId, M::Error>(y.id) && (if (x.duration.remap_check(m)) is Err { x.duration.walked_to(m, y.duration) && x.modifiers == y.modifiers && x.tags == y.tags && x.reactions == y.reactions && x.on_apply == y.on_apply && x.on_expire == y.on_expire && x.on_remove == y.on_remove } else { x.duration.remaps_to(m, y.duration) && (if (x.modifiers.remap_check(m)) is Err { x.modifiers.walked_to(m, y.modifiers) && x.tags == y.tags && x.reactions == y.reactions && x.on_apply == y.on_apply && x.on_expire == y.on_expire && x.on_remove == y.on_remove } else { x.modifiers.remaps_to(m, y.modifiers) && (if (tags_check(x.tags@, m)) is Err { tags_walked(x.tags@, m, y.tags@) && x.reactions == y.reactions && x.on_apply == y.on_apply && x.on_expire == y.on_expire && x.on_remove == y.on_remove } else { tags_remaps(x.tags@, m, y.tags@) && (if (x.reactions.remap_check(m)) is Err { x.reactions.walked_to(m, y.reactions) && x.on_apply == y.on_apply && x.on_expire == y.on_expire && x.on_remove == y.on_remove } else { x.reactions.remaps_to(m, y.reactions) && (if (impacts_check(x.on_apply@, m)) is Err { impacts_walked(x.on_apply@, m, y.on_apply@) && x.on_expire == y.on_expire && x.on_remove == y.on_remove } else { impacts_remaps(x.on_apply@, m, y.on_apply@) && (if (impacts_check(x.on_expire@, m)) is Err { impacts_walked(x.on_expire@, m, y.on_expire@) && x.on_remove == y.on_remove } else { impacts_remaps(x.on_expire@, m, y.on_expire@) && (if (impacts_check(x.on_remove@, m)) is Err { impacts_walked(x.on_remove@, m, y.on_remove@) } else { impacts_remaps(x.on_remove@, m, y.on_remove@) && true }) }) }) }) }) }) }) })
    }

    #[verifier::rlimit(60)]
    #[verifier::spinoff_prover]
    fn remap_ids(&mut self, m: &M) -> (r: Result<(), M::Error>) {
        let x = self;
        match m.buff(x.id) {
            Ok(v) => { x.id = v; },
            Err(e) => { return Err(e); },
        }
        let r = x.duration.remap_ids(m);
        if r.is_err() {
            return r;
        }
        let r = x.modifiers.remap_ids(m);
        if r.is_err() {
            return r;
        }
        let r = remap_tags(&mut x.tags, m);
        if r.is_err() {
            return r;
        }
        let r = x.reactions.remap_ids(m);
        if r.is_err() {
            return r;
        }
        let r = remap_impacts(&mut x.on_apply, m);
        if r.is_err() {
            return r;
        }
        let r = remap_impacts(&mut x.on_expire, m);
        if r.is_err() {
            return r;
        }
        let r = remap_impacts(&mut x.on_remove, m);
        if r.is_err() {
            return r;
        }
        Ok(())
    }

    proof fn lemma_total(&self, m: &M) {
        let x = *self;
        x.duration.lemma_total(m);
        x.modifiers.lemma_total(m);
        lemma_tags_total(x.tags@, m);
        x.reactions.lemma_total(m);
        lemma_impacts_total(x.on_apply@, m);
        lemma_impacts_total(x.on_expire@, m);
        lemma_impacts_total(x.on_remove@, m);
    }

    proof fn lemma_identity(&self, m: &M, new: Self) {
        let x = *self;
        let y = new;
        x.duration.lemma_identity(m, y.duration);
        x.modifiers.lemma_identity(m, y.modifiers);
        lemma_tags_identity(x.tags@, m, y.tags@);
        x.reactions.lemma_identity(m, y.reactions);
        lemma_impacts_identity(x.on_apply@, m, y.on_apply@);
        lemma_impacts_identity(x.on_expire@, m, y.on_expire@);
        lemma_impacts_identity(x.on_remove@, m, y.on_remove@);
    }

    proof fn lemma_stable(&self, m: &M, a: Self, b: Self) {
        let x = *self;
        x.duration.lemma_stable(m, a.duration, b.duration);
        x.modifiers.lemma_stable(m, a.modifiers, b.modifiers);
        lemma_tags_stable(x.tags@, m, a.tags@, b.tags@);
        x.reactions.lemma_stable(m, a.reactions, b.reactions);
        lemma_impacts_stable(x.on_apply@, m, a.on_apply@, b.on_apply@);
        lemma_impacts_stable(x.on_expire@, m, a.on_expire@, b.on_expire@);
        lemma_impacts_stable(x.on_remove@, m, a.on_remove@, b.on_remove@);
    }

    #[verifier::rlimit(60)]
    #[verifier::spinoff_prover]
    proof fn lemma_walk_keeps(&self, m: &M, new: Self) {
        let x = *self;
        let y = new;
        if (leaf(m.buff_spec(x.id))) is Err { x.duration.lemma_same_refl(m); x.modifiers.lemma_same_refl(m); lemma_tags_same_refl(x.tags@, m); x.reactions.lemma_same_refl(m); lemma_impacts_same_refl(x.on_apply@, m); lemma_impacts_same_refl(x.on_expire@, m); lemma_impacts_same_refl(x.on_remove@, m); } else {  if (x.duration.remap_check(m)) is Err { x.duration.lemma_walk_keeps(m, y.duration); x.modifiers.lemma_same_refl(m); lemma_tags_same_refl(x.tags@, m); x.reactions.lemma_same_refl(m); lemma_impacts_same_refl(x.on_apply@, m); lemma_impacts_same_refl(x.on_expire@, m); lemma_impacts_same_refl(x.on_remove@, m); } else { x.duration.lemma_identity(m, y.duration); if (x.modifiers.remap_check(m)) is Err { x.modifiers.lemma_walk_keeps(m, y.modifiers); lemma_tags_same_refl(x.tags@, m); x.reactions.lemma_same_refl(m); lemma_impacts_same_refl(x.on_apply@, m); lemma_impacts_same_refl(x.on_expire@, m); lemma_impacts_same_refl(x.on_remove@, m); } else { x.modifiers.lemma_identity(m, y.modifiers); if (tags_check(x.tags@, m)) is Err { lemma_tags_walk_keeps(x.tags@, m, y.tags@); x.reactions.lemma_same_refl(m); lemma_impacts_same_refl(x.on_apply@, m); lemma_impacts_same_refl(x.on_expire@, m); lemma_impacts_same_refl(x.on_remove@, m); } else { lemma_tags_identity(x.tags@, m, y.tags@); if (x.reactions.remap_check(m)) is Err { x.reactions.lemma_walk_keeps(m, y.reactions); lemma_impacts_same_refl(x.on_apply@, m); lemma_impacts_same_refl(x.on_expire@, m); lemma_impacts_same_refl(x.on_remove@, m); } else { x.reactions.lemma_identity(m, y.reactions); if (impacts_check(x.on_apply@, m)) is Err { lemma_impacts_walk_keeps(x.on_apply@, m, y.on_apply@); lemma_impacts_same_refl(x.on_expire@, m); lemma_impacts_same_refl(x.on_remove@, m); } else { lemma_impacts_identity(x.on_apply@, m, y.on_apply@); if (impacts_check(x.on_expire@, m)) is Err { lemma_impacts_walk_keeps(x.on_expire@, m, y.on_expire@); lemma_impacts_same_refl(x.on_remove@, m); } else { lemma_impacts_identity(x.on_expire@, m, y.on_expire@); if (impacts_check(x.on_remove@, m)) is Err { lemma_impacts_walk_keeps(x.on_remove@, m, y.on_remove@); } else { lemma_impacts_identity(x.on_remove@, m, y.on_remove@);  } } } } } } } }
    }

    proof fn lemma_same_refl(&self, m: &M) {
        let x = *self;
        x.duration.lemma_same_refl(m); x.modifiers.lemma_same_refl(m); lemma_tags_same_refl(x.tags@, m); x.reactions.lemma_same_refl(m); lemma_impacts_same_refl(x.on_apply@, m); lemma_impacts_same_refl(x.on_expire@, m); lemma_impacts_same_refl(x.on_remove@, m);
    }
}

impl<M1: IdMap, M2: IdMap> RemapPair<M1, M2> for BuffSpec {
    proof fn lemma_lands(&self, m1: &M1, m2: &M2, a: Self) {
        let x = *self;
        x.duration.lemma_lands(m1, m2, a.duration);
        x.modifiers.lemma_lands(m1, m2, a.modifiers);
        lemma_tags_lands(x.tags@, m1, m2, a.tags@);
        x.reactions.lemma_lands(m1, m2, a.reactions);
        lemma_impacts_lands(x.on_apply@, m1, m2, a.on_apply@);
        lemma_impacts_lands(x.on_expire@, m1, m2, a.on_expire@);
        lemma_impacts_lands(x.on_remove@, m1, m2, a.on_remove@);
    }

    proof fn lemma_fixed(&self, m1: &M1, m2: &M2, a: Self, b: Self) {
        let x = *self;
        x.duration.lemma_fixed(m1, m2, a.duration, b.duration);
        x.modifiers.lemma_fixed(m1, m2, a.modifiers, b.modifiers);
        lemma_tags_fixed(x.tags@, m1, m2, a.tags@, b.tags@);
        x.reactions.lemma_fixed(m1, m2, a.reactions, b.reactions);
        lemma_impacts_fixed(x.on_apply@, m1, m2, a.on_apply@, b.on_apply@);
        lemma_impacts_fixed(x.on_expire@, m1, m2, a.on_expire@, b.on_expire@);
        lemma_impacts_fixed(x.on_remove@, m1, m2, a.on_remove@, b.on_remove@);
    }
}

impl<M1: IdMap, M2: IdMap, M12: IdMap> RemapCompose<M1, M2, M12> for BuffSpec {
    proof fn lemma_compose(&self, m1: &M1, m2: &M2, m12: &M12, a: Self, b: Self) {
        let x = *self;
        x.duration.lemma_compose(m1, m2, m12, a.duration, b.duration);
        x.modifiers.lemma_compose(m1, m2, m12, a.modifiers, b.modifiers);
        lemma_tags_compose(x.tags@, m1, m2, m12, a.tags@, b.tags@);
        x.reactions.lemma_compose(m1, m2, m12, a.reactions, b.reactions);
        lemma_impacts_compose(x.on_apply@, m1, m2, m12, a.on_apply@, b.on_apply@);
        lemma_impacts_compose(x.on_expire@, m1, m2, m12, a.on_expire@, b.on_expire@);
        lemma_impacts_compose(x.on_remove@, m1, m2, m12, a.on_remove@, b.on_remove@);
    }
}

impl Contents for EventKind {
    open spec fn same_as(&self, other: Self) -> bool {
        let x = *self;
        let y = other;
        match (x, y) {
            (EventKind::OnCastStart, EventKind::OnCastStart) => true,
            (EventKind::OnCast, EventKind::OnCast) => true,
            (EventKind::OnHit, EventKind::OnHit) => true,
            (EventKind::OnDamageDealt, EventKind::OnDamageDealt) => true,
            (EventKind::OnDamageTaken, EventKind::OnDamageTaken) => true,
            (EventKind::OnLethalDamage, EventKind::OnLethalDamage) => true,
            (EventKind::OnKill, EventKind::OnKill) => true,
            (EventKind::OnDeath, EventKind::OnDeath) => true,
            (EventKind::OnCcApplied, EventKind::OnCcApplied) => true,
            (EventKind::OnCcEnded, EventKind::OnCcEnded) => true,
            (EventKind::OnPickup, EventKind::OnPickup) => true,
            (EventKind::OnTick, EventKind::OnTick) => true,
            (EventKind::OnMove, EventKind::OnMove) => true,
            (EventKind::OnChannelProgress, EventKind::OnChannelProgress) => true,
            (EventKind::OnHeal, EventKind::OnHeal) => true,
            (EventKind::OnShieldChanged, EventKind::OnShieldChanged) => true,
            (EventKind::OnStacksChanged, EventKind::OnStacksChanged) => true,
            (EventKind::OnAutoAttack, EventKind::OnAutoAttack) => true,
            (EventKind::OnAbilityReady, EventKind::OnAbilityReady) => true,
            (EventKind::OnBuffApplied, EventKind::OnBuffApplied) => true,
            (EventKind::OnBuffExpired, EventKind::OnBuffExpired) => true,
            (EventKind::OnSpawn, EventKind::OnSpawn) => true,
            (EventKind::OnDespawn, EventKind::OnDespawn) => true,
            (EventKind::Custom(x_0), EventKind::Custom(y_0)) => x_0 == y_0,
            _ => false,
        }
    }
}

impl<M: IdMap> RemapIds<M> for EventKind {
    open spec fn remap_check(&self, m: &M) -> Result<(), M::Error> {
        let x = *self;
        match x {
            EventKind::OnCastStart => Ok(()),
            EventKind::OnCast => Ok(()),
            EventKind::OnHit => Ok(()),
            EventKind::OnDamageDealt => Ok(()),
            EventKind::OnDamageTaken => Ok(()),
            EventKind::OnLethalDamage => Ok(()),
            EventKind::OnKill => Ok(()),
            EventKind::OnDeath => Ok(()),
            EventKind::OnCcApplied => Ok(()),
            EventKind::OnCcEnded => Ok(()),
            EventKind::OnPickup => Ok(()),
            EventKind::OnTick => Ok(()),
            EventKind::OnMove => Ok(()),
            EventKind::OnChannelProgress => Ok(()),
            EventKind::OnHeal => Ok(()),
            EventKind::OnShieldChanged => Ok(()),
            EventKind::OnStacksChanged => Ok(()),
            EventKind::OnAutoAttack => Ok(()),
            EventKind::OnAbilityReady => Ok(()),
            EventKind::OnBuffApplied => Ok(()),
            EventKind::OnBuffExpired => Ok(()),
            EventKind::OnSpawn => Ok(()),
            EventKind::OnDespawn => Ok(()),
            EventKind::Custom(x_0) => then(leaf(m.event_spec(x_0)), Ok(())),
        }
    }

    open spec fn remaps_to(&self, m: &M, new: Self) -> bool {
        let x = *self;
        let y = new;
        match (x, y) {
            (EventKind::OnCastStart, EventKind::OnCastStart) => true,
            (EventKind::OnCast, EventKind::OnCast) => true,
            (EventKind::OnHit, EventKind::OnHit) => true,
            (EventKind::OnDamageDealt, EventKind::OnDamageDealt) => true,
            (EventKind::OnDamageTaken, EventKind::OnDamageTaken) => true,
            (EventKind::OnLethalDamage, EventKind::OnLethalDamage) => true,
            (EventKind::OnKill, EventKind::OnKill) => true,
            (EventKind::OnDeath, EventKind::OnDeath) => true,
            (EventKind::OnCcApplied, EventKind::OnCcApplied) => true,
            (EventKind::OnCcEnded, EventKind::OnCcEnded) => true,
            (EventKind::OnPickup, EventKind::OnPickup) => true,
            (EventKind::OnTick, EventKind::OnTick) => true,
            (EventKind::OnMove, EventKind::OnMove) => true,
            (EventKind::OnChannelProgress, EventKind::OnChannelProgress) => true,
            (EventKind::OnHeal, EventKind::OnHeal) => true,
            (EventKind::OnShieldChanged, EventKind::OnShieldChanged) => true,
            (EventKind::OnStacksChanged, EventKind::OnStacksChanged) => true,
            (EventKind::OnAutoAttack, EventKind::OnAutoAttack) => true,
            (EventKind::OnAbilityReady, EventKind::OnAbilityReady) => true,
            (EventKind::OnBuffApplied, EventKind::OnBuffApplied) => true,
            (EventKind::OnBuffExpired, EventKind::OnBuffExpired) => true,
            (EventKind::OnSpawn, EventKind::OnSpawn) => true,
            (EventKind::OnDespawn, EventKind::OnDespawn) => true,
            (EventKind::Custom(x_0), EventKind::Custom(y_0)) => m.event_spec(x_0) == Ok::<EventId, M::Error>(y_0),
            _ => false,
        }
    }

    open spec fn walked_to(&self, m: &M, new: Self) -> bool {
        let x = *self;
        let y = new;
        match (x, y) {
            (EventKind::OnCastStart, EventKind::OnCastStart) => true,
            (EventKind::OnCast, EventKind::OnCast) => true,
            (EventKind::OnHit, EventKind::OnHit) => true,
            (EventKind::OnDamageDealt, EventKind::OnDamageDealt) => true,
            (EventKind::OnDamageTaken, EventKind::OnDamageTaken) => true,
            (EventKind::OnLethalDamage, EventKind::OnLethalDamage) => true,
            (EventKind::OnKill, EventKind::OnKill) => true,
            (EventKind::OnDeath, EventKind::OnDeath) => true,
            (EventKind::OnCcApplied, EventKind::OnCcApplied) => true,
            (EventKind::OnCcEnded, EventKind::OnCcEnded) => true,
            (EventKind::OnPickup, EventKind::OnPickup) => true,
            (EventKind::OnTick, EventKind::OnTick) => true,
            (EventKind::OnMove, EventKind::OnMove) => true,
            (EventKind::OnChannelProgress, EventKind::OnChannelProgress) => true,
            (EventKind::OnHeal, EventKind::OnHeal) => true,
            (EventKind::OnShieldChanged, EventKind::OnShieldChanged) => true,
            (EventKind::OnStacksChanged, EventKind::OnStacksChanged) => true,
            (EventKind::OnAutoAttack, EventKind::OnAutoAttack) => true,
            (EventKind::OnAbilityReady, EventKind::OnAbilityReady) => true,
            (EventKind::OnBuffApplied, EventKind::OnBuffApplied) => true,
            (EventKind::OnBuffExpired, EventKind::OnBuffExpired) => true,
            (EventKind::OnSpawn, EventKind::OnSpawn) => true,
            (EventKind::OnDespawn, EventKind::OnDespawn) => true,
            (EventKind::Custom(x_0), EventKind::Custom(y_0)) => (if (leaf(m.event_spec(x_0))) is Err { x_0 == y_0 } else { m.event_spec(x_0) == Ok::<EventId, M::Error>(y_0) && true }),
            _ => false,
        }
    }

    #[verifier::rlimit(60)]
    #[verifier::spinoff_prover]
    fn remap_ids(&mut self, m: &M) -> (r: Result<(), M::Error>) {
        let x = self;
        match x {
            EventKind::OnCastStart => {
            },
            EventKind::OnCast => {
            },
            EventKind::OnHit => {
            },
            EventKind::OnDamageDealt => {
            },
            EventKind::OnDamageTaken => {
            },
            EventKind::OnLethalDamage => {
            },
            EventKind::OnKill => {
            },
            EventKind::OnDeath => {
            },
            EventKind::OnCcApplied => {
            },
            EventKind::OnCcEnded => {
            },
            EventKind::OnPickup => {
            },
            EventKind::OnTick => {
            },
            EventKind::OnMove => {
            },
            EventKind::OnChannelProgress => {
            },
            EventKind::OnHeal => {
            },
            EventKind::OnShieldChanged => {
            },
            EventKind::OnStacksChanged => {
            },
            EventKind::OnAutoAttack => {
            },
            EventKind::OnAbilityReady => {
            },
            EventKind::OnBuffApplied => {
            },
            EventKind::OnBuffExpired => {
            },
            EventKind::OnSpawn => {
            },
            EventKind::OnDespawn => {
            },
            EventKind::Custom(x_0) => {
                match m.event(*x_0) {
                    Ok(v) => { *x_0 = v; },
                    Err(e) => { return Err(e); },
                }
            },
        }
        Ok(())
    }

    proof fn lemma_total(&self, m: &M) {
        let x = *self;
        match x {
            EventKind::OnCastStart => {  },
            EventKind::OnCast => {  },
            EventKind::OnHit => {  },
            EventKind::OnDamageDealt => {  },
            EventKind::OnDamageTaken => {  },
            EventKind::OnLethalDamage => {  },
            EventKind::OnKill => {  },
            EventKind::OnDeath => {  },
            EventKind::OnCcApplied => {  },
            EventKind::OnCcEnded => {  },
            EventKind::OnPickup => {  },
            EventKind::OnTick => {  },
            EventKind::OnMove => {  },
            EventKind::OnChannelProgress => {  },
            EventKind::OnHeal => {  },
            EventKind::OnShieldChanged => {  },
            EventKind::OnStacksChanged => {  },
            EventKind::OnAutoAttack => {  },
            EventKind::OnAbilityReady => {  },
            EventKind::OnBuffApplied => {  },
            EventKind::OnBuffExpired => {  },
            EventKind::OnSpawn => {  },
            EventKind::OnDespawn => {  },
            EventKind::Custom(x_0) => {  },
        }
    }

    proof fn lemma_identity(&self, m: &M, new: Self) {
        let x = *self;
        let y = new;
        match (x, y) {
            (EventKind::OnCastStart, EventKind::OnCastStart) => {  },
            (EventKind::OnCast, EventKind::OnCast) => {  },
            (EventKind::OnHit, EventKind::OnHit) => {  },
            (EventKind::OnDamageDealt, EventKind::OnDamageDealt) => {  },
            (EventKind::OnDamageTaken, EventKind::OnDamageTaken) => {  },
            (EventKind::OnLethalDamage, EventKind::OnLethalDamage) => {  },
            (EventKind::OnKill, EventKind::OnKill) => {  },
            (EventKind::OnDeath, EventKind::OnDeath) => {  },
            (EventKind::OnCcApplied, EventKind::OnCcApplied) => {  },
            (EventKind::OnCcEnded, EventKind::OnCcEnded) => {  },
            (EventKind::OnPickup, EventKind::OnPickup) => {  },
            (EventKind::OnTick, EventKind::OnTick) => {  },
            (EventKind::OnMove, EventKind::OnMove) => {  },
            (EventKind::OnChannelProgress, EventKind::OnChannelProgress) => {  },
            (EventKind::OnHeal, EventKind::OnHeal) => {  },
            (EventKind::OnShieldChanged, EventKind::OnShieldChanged) => {  },
            (EventKind::OnStacksChanged, EventKind::OnStacksChanged) => {  },
            (EventKind::OnAutoAttack, EventKind::OnAutoAttack) => {  },
            (EventKind::OnAbilityReady, EventKind::OnAbilityReady) => {  },
            (EventKind::OnBuffApplied, EventKind::OnBuffApplied) => {  },
            (EventKind::OnBuffExpired, EventKind::OnBuffExpired) => {  },
            (EventKind::OnSpawn, EventKind::OnSpawn) => {  },
            (EventKind::OnDespawn, EventKind::OnDespawn) => {  },
            (EventKind::Custom(x_0), EventKind::Custom(y_0)) => {  },
            _ => {},
        }
    }

    proof fn lemma_stable(&self, m: &M, a: Self, b: Self) {
        let x = *self;
        match (x, a, b) {
            (EventKind::OnCastStart, EventKind::OnCastStart, EventKind::OnCastStart) => {  },
            (EventKind::OnCast, EventKind::OnCast, EventKind::OnCast) => {  },
            (EventKind::OnHit, EventKind::OnHit, EventKind::OnHit) => {  },
            (EventKind::OnDamageDealt, EventKind::OnDamageDealt, EventKind::OnDamageDealt) => {  },
            (EventKind::OnDamageTaken, EventKind::OnDamageTaken, EventKind::OnDamageTaken) => {  },
            (EventKind::OnLethalDamage, EventKind::OnLethalDamage, EventKind::OnLethalDamage) => {  },
            (EventKind::OnKill, EventKind::OnKill, EventKind::OnKill) => {  },
            (EventKind::OnDeath, EventKind::OnDeath, EventKind::OnDeath) => {  },
            (EventKind::OnCcApplied, EventKind::OnCcApplied, EventKind::OnCcApplied) => {  },
            (EventKind::OnCcEnded, EventKind::OnCcEnded, EventKind::OnCcEnded) => {  },
            (EventKind::OnPickup, EventKind::OnPickup, EventKind::OnPickup) => {  },
            (EventKind::OnTick, EventKind::OnTick, EventKind::OnTick) => {  },
            (EventKind::OnMove, EventKind::OnMove, EventKind::OnMove) => {  },
            (EventKind::OnChannelProgress, EventKind::OnChannelProgress, EventKind::OnChannelProgress) => {  },
            (EventKind::OnHeal, EventKind::OnHeal, EventKind::OnHeal) => {  },
            (EventKind::OnShieldChanged, EventKind::OnShieldChanged, EventKind::OnShieldChanged) => {  },
            (EventKind::OnStacksChanged, EventKind::OnStacksChanged, EventKind::OnStacksChanged) => {  },
            (EventKind::OnAutoAttack, EventKind::OnAutoAttack, EventKind::OnAutoAttack) => {  },
            (EventKind::OnAbilityReady, EventKind::OnAbilityReady, EventKind::OnAbilityReady) => {  },
            (EventKind::OnBuffApplied, EventKind::OnBuffApplied, EventKind::OnBuffApplied) => {  },
            (EventKind::OnBuffExpired, EventKind::OnBuffExpired, EventKind::OnBuffExpired) => {  },
            (EventKind::OnSpawn, EventKind::OnSpawn, EventKind::OnSpawn) => {  },
            (EventKind::OnDespawn, EventKind::OnDespawn, EventKind::OnDespawn) => {  },
            (EventKind::Custom(x_0), EventKind::Custom(a_0), EventKind::Custom(b_0)) => {  },
            _ => {},
        }
    }

    #[verifier::rlimit(60)]
    #[verifier::spinoff_prover]
    proof fn lemma_walk_keeps(&self, m: &M, new: Self) {
        let x = *self;
        let y = new;
        match (x, y) {
            (EventKind::OnCastStart, EventKind::OnCastStart) => {  },
            (EventKind::OnCast, EventKind::OnCast) => {  },
            (EventKind::OnHit, EventKind::OnHit) => {  },
            (EventKind::OnDamageDealt, EventKind::OnDamageDealt) => {  },
            (EventKind::OnDamageTaken, EventKind::OnDamageTaken) => {  },
            (EventKind::OnLethalDamage, EventKind::OnLethalDamage) => {  },
            (EventKind::OnKill, EventKind::OnKill) => {  },
            (EventKind::OnDeath, EventKind::OnDeath) => {  },
            (EventKind::OnCcApplied, EventKind::OnCcApplied) => {  },
            (EventKind::OnCcEnded, EventKind::OnCcEnded) => {  },
            (EventKind::OnPickup, EventKind::OnPickup) => {  },
            (EventKind::OnTick, EventKind::OnTick) => {  },
            (EventKind::OnMove, EventKind::OnMove) => {  },
            (EventKind::OnChannelProgress, EventKind::OnChannelProgress) => {  },
            (EventKind::OnHeal, EventKind::OnHeal) => {  },
            (EventKind::OnShieldChanged, EventKind::OnShieldChanged) => {  },
            (EventKind::OnStacksChanged, EventKind::OnStacksChanged) => {  },
            (EventKind::OnAutoAttack, EventKind::OnAutoAttack) => {  },
            (EventKind::OnAbilityReady, EventKind::OnAbilityReady) => {  },
            (EventKind::OnBuffApplied, EventKind::OnBuffApplied) => {  },
            (EventKind::OnBuffExpired, EventKind::OnBuffExpired) => {  },
            (EventKind::OnSpawn, EventKind::OnSpawn) => {  },
            (EventKind::OnDespawn, EventKind::OnDespawn) => {  },
            (EventKind::Custom(x_0), EventKind::Custom(y_0)) => { if (leaf(m.event_spec(x_0))) is Err {  } else {   } },
            _ => {},
        }
    }

    proof fn lemma_same_refl(&self, m: &M) {
        let x = *self;
        match x {
            EventKind::OnCastStart => {  },
            EventKind::OnCast => {  },
            EventKind::OnHit => {  },
            EventKind::OnDamageDealt => {  },
            EventKind::OnDamageTaken => {  },
            EventKind::OnLethalDamage => {  },
            EventKind::OnKill => {  },
            EventKind::OnDeath => {  },
            EventKind::OnCcApplied => {  },
            EventKind::OnCcEnded => {  },
            EventKind::OnPickup => {  },
            EventKind::OnTick => {  },
            EventKind::OnMove => {  },
            EventKind::OnChannelProgress => {  },
            EventKind::OnHeal => {  },
            EventKind::OnShieldChanged => {  },
            EventKind::OnStacksChanged => {  },
            EventKind::OnAutoAttack => {  },
            EventKind::OnAbilityReady => {  },
            EventKind::OnBuffApplied => {  },
            EventKind::OnBuffExpired => {  },
            EventKind::OnSpawn => {  },
            EventKind::OnDespawn => {  },
            EventKind::Custom(x_0) => {  },
        }
    }
}

impl<M1: IdMap, M2: IdMap> RemapPair<M1, M2> for EventKind {
    proof fn lemma_lands(&self, m1: &M1, m2: &M2, a: Self) {
        let x = *self;
        match (x, a) {
            (EventKind::OnCastStart, EventKind::OnCastStart) => {  },
            (EventKind::OnCast, EventKind::OnCast) => {  },
            (EventKind::OnHit, EventKind::OnHit) => {  },
            (EventKind::OnDamageDealt, EventKind::OnDamageDealt) => {  },
            (EventKind::OnDamageTaken, EventKind::OnDamageTaken) => {  },
            (EventKind::OnLethalDamage, EventKind::OnLethalDamage) => {  },
            (EventKind::OnKill, EventKind::OnKill) => {  },
            (EventKind::OnDeath, EventKind::OnDeath) => {  },
            (EventKind::OnCcApplied, EventKind::OnCcApplied) => {  },
            (EventKind::OnCcEnded, EventKind::OnCcEnded) => {  },
            (EventKind::OnPickup, EventKind::OnPickup) => {  },
            (EventKind::OnTick, EventKind::OnTick) => {  },
            (EventKind::OnMove, EventKind::OnMove) => {  },
            (EventKind::OnChannelProgress, EventKind::OnChannelProgress) => {  },
            (EventKind::OnHeal, EventKind::OnHeal) => {  },
            (EventKind::OnShieldChanged, EventKind::OnShieldChanged) => {  },
            (EventKind::OnStacksChanged, EventKind::OnStacksChanged) => {  },
            (EventKind::OnAutoAttack, EventKind::OnAutoAttack) => {  },
            (EventKind::OnAbilityReady, EventKind::OnAbilityReady) => {  },
            (EventKind::OnBuffApplied, EventKind::OnBuffApplied) => {  },
            (EventKind::OnBuffExpired, EventKind::OnBuffExpired) => {  },
            (EventKind::OnSpawn, EventKind::OnSpawn) => {  },
            (EventKind::OnDespawn, EventKind::OnDespawn) => {  },
            (EventKind::Custom(x_0), EventKind::Custom(a_0)) => {  },
            _ => {},
        }
    }

    proof fn lemma_fixed(&self, m1: &M1, m2: &M2, a: Self, b: Self) {
        let x = *self;
        match (x, a, b) {
            (EventKind::OnCastStart, EventKind::OnCastStart, EventKind::OnCastStart) => {  },
            (EventKind::OnCast, EventKind::OnCast, EventKind::OnCast) => {  },
            (EventKind::OnHit, EventKind::OnHit, EventKind::OnHit) => {  },
            (EventKind::OnDamageDealt, EventKind::OnDamageDealt, EventKind::OnDamageDealt) => {  },
            (EventKind::OnDamageTaken, EventKind::OnDamageTaken, EventKind::OnDamageTaken) => {  },
            (EventKind::OnLethalDamage, EventKind::OnLethalDamage, EventKind::OnLethalDamage) => {  },
            (EventKind::OnKill, EventKind::OnKill, EventKind::OnKill) => {  },
            (EventKind::OnDeath, EventKind::OnDeath, EventKind::OnDeath) => {  },
            (EventKind::OnCcApplied, EventKind::OnCcApplied, EventKind::OnCcApplied) => {  },
            (EventKind::OnCcEnded, EventKind::OnCcEnded, EventKind::OnCcEnded) => {  },
            (EventKind::OnPickup, EventKind::OnPickup, EventKind::OnPickup) => {  },
            (EventKind::OnTick, EventKind::OnTick, EventKind::OnTick) => {  },
            (EventKind::OnMove, EventKind::OnMove, EventKind::OnMove) => {  },
            (EventKind::OnChannelProgress, EventKind::OnChannelProgress, EventKind::OnChannelProgress) => {  },
            (EventKind::OnHeal, EventKind::OnHeal, EventKind::OnHeal) => {  },
            (EventKind::OnShieldChanged, EventKind::OnShieldChanged, EventKind::OnShieldChanged) => {  },
            (EventKind::OnStacksChanged, EventKind::OnStacksChanged, EventKind::OnStacksChanged) => {  },
            (EventKind::OnAutoAttack, EventKind::OnAutoAttack, EventKind::OnAutoAttack) => {  },
            (EventKind::OnAbilityReady, EventKind::OnAbilityReady, EventKind::OnAbilityReady) => {  },
            (EventKind::OnBuffApplied, EventKind::OnBuffApplied, EventKind::OnBuffApplied) => {  },
            (EventKind::OnBuffExpired, EventKind::OnBuffExpired, EventKind::OnBuffExpired) => {  },
            (EventKind::OnSpawn, EventKind::OnSpawn, EventKind::OnSpawn) => {  },
            (EventKind::OnDespawn, EventKind::OnDespawn, EventKind::OnDespawn) => {  },
            (EventKind::Custom(x_0), EventKind::Custom(a_0), EventKind::Custom(b_0)) => {  },
            _ => {},
        }
    }
}

impl<M1: IdMap, M2: IdMap, M12: IdMap> RemapCompose<M1, M2, M12> for EventKind {
    proof fn lemma_compose(&self, m1: &M1, m2: &M2, m12: &M12, a: Self, b: Self) {
        let x = *self;
        match (x, a, b) {
            (EventKind::OnCastStart, EventKind::OnCastStart, EventKind::OnCastStart) => {  },
            (EventKind::OnCast, EventKind::OnCast, EventKind::OnCast) => {  },
            (EventKind::OnHit, EventKind::OnHit, EventKind::OnHit) => {  },
            (EventKind::OnDamageDealt, EventKind::OnDamageDealt, EventKind::OnDamageDealt) => {  },
            (EventKind::OnDamageTaken, EventKind::OnDamageTaken, EventKind::OnDamageTaken) => {  },
            (EventKind::OnLethalDamage, EventKind::OnLethalDamage, EventKind::OnLethalDamage) => {  },
            (EventKind::OnKill, EventKind::OnKill, EventKind::OnKill) => {  },
            (EventKind::OnDeath, EventKind::OnDeath, EventKind::OnDeath) => {  },
            (EventKind::OnCcApplied, EventKind::OnCcApplied, EventKind::OnCcApplied) => {  },
            (EventKind::OnCcEnded, EventKind::OnCcEnded, EventKind::OnCcEnded) => {  },
            (EventKind::OnPickup, EventKind::OnPickup, EventKind::OnPickup) => {  },
            (EventKind::OnTick, EventKind::OnTick, EventKind::OnTick) => {  },
            (EventKind::OnMove, EventKind::OnMove, EventKind::OnMove) => {  },
            (EventKind::OnChannelProgress, EventKind::OnChannelProgress, EventKind::OnChannelProgress) => {  },
            (EventKind::OnHeal, EventKind::OnHeal, EventKind::OnHeal) => {  },
            (EventKind::OnShieldChanged, EventKind::OnShieldChanged, EventKind::OnShieldChanged) => {  },
            (EventKind::OnStacksChanged, EventKind::OnStacksChanged, EventKind::OnStacksChanged) => {  },
            (EventKind::OnAutoAttack, EventKind::OnAutoAttack, EventKind::OnAutoAttack) => {  },
            (EventKind::OnAbilityReady, EventKind::OnAbilityReady, EventKind::OnAbilityReady) => {  },
            (EventKind::OnBuffApplied, EventKind::OnBuffApplied, EventKind::OnBuffApplied) => {  },
            (EventKind::OnBuffExpired, EventKind::OnBuffExpired, EventKind::OnBuffExpired) => {  },
            (EventKind::OnSpawn, EventKind::OnSpawn, EventKind::OnSpawn) => {  },
            (EventKind::OnDespawn, EventKind::OnDespawn, EventKind::OnDespawn) => {  },
            (EventKind::Custom(x_0), EventKind::Custom(a_0), EventKind::Custom(b_0)) => {  },
            _ => {},
        }
    }
}

impl Contents for EventFilter {
    open spec fn same_as(&self, other: Self) -> bool {
        let x = *self;
        let y = other;
        x.source_slot == y.source_slot
                && x.every_nth == y.every_nth
                && x.require_tag_on_target == y.require_tag_on_target
    }
}

impl<M: IdMap> RemapIds<M> for EventFilter {
    open spec fn remap_check(&self, m: &M) -> Result<(), M::Error> {
        let x = *self;
        then((match x.require_tag_on_target { Some(x) => leaf(m.tag_spec(x)), None => Ok(()) }), Ok(()))
    }

    open spec fn remaps_to(&self, m: &M, new: Self) -> bool {
        let x = *self;
        let y = new;
        x.source_slot == y.source_slot
                && x.every_nth == y.every_nth
                && (match (x.require_tag_on_target, y.require_tag_on_target) { (Some(x), Some(y)) => m.tag_spec(x) == Ok::<TagId, M::Error>(y), (None, None) => true, _ => false })
    }

    open spec fn walked_to(&self, m: &M, new: Self) -> bool {
        let x = *self;
        let y = new;
        x.source_slot == y.source_slot && x.every_nth == y.every_nth && (if ((match x.require_tag_on_target { Some(x) => leaf(m.tag_spec(x)), None => Ok(()) })) is Err { x.require_tag_on_target == y.require_tag_on_target } else { (match (x.require_tag_on_target, y.require_tag_on_target) { (Some(x), Some(y)) => m.tag_spec(x) == Ok::<TagId, M::Error>(y), (None, None) => true, _ => false }) && true })
    }

    #[verifier::rlimit(60)]
    #[verifier::spinoff_prover]
    fn remap_ids(&mut self, m: &M) -> (r: Result<(), M::Error>) {
        let x = self;
        match &mut x.require_tag_on_target {
            Some(x) => {
                match m.tag(*x) {
                    Ok(v) => { *x = v; },
                    Err(e) => { return Err(e); },
                }
            },
            None => {},
        }
        Ok(())
    }

    proof fn lemma_total(&self, m: &M) {
        let x = *self;

    }

    proof fn lemma_identity(&self, m: &M, new: Self) {
        let x = *self;
        let y = new;

    }

    proof fn lemma_stable(&self, m: &M, a: Self, b: Self) {
        let x = *self;

    }

    #[verifier::rlimit(60)]
    #[verifier::spinoff_prover]
    proof fn lemma_walk_keeps(&self, m: &M, new: Self) {
        let x = *self;
        let y = new;
        if ((match x.require_tag_on_target { Some(x) => leaf(m.tag_spec(x)), None => Ok(()) })) is Err {  } else {   }
    }

    proof fn lemma_same_refl(&self, m: &M) {
        let x = *self;

    }
}

impl<M1: IdMap, M2: IdMap> RemapPair<M1, M2> for EventFilter {
    proof fn lemma_lands(&self, m1: &M1, m2: &M2, a: Self) {
        let x = *self;

    }

    proof fn lemma_fixed(&self, m1: &M1, m2: &M2, a: Self, b: Self) {
        let x = *self;

    }
}

impl<M1: IdMap, M2: IdMap, M12: IdMap> RemapCompose<M1, M2, M12> for EventFilter {
    proof fn lemma_compose(&self, m1: &M1, m2: &M2, m12: &M12, a: Self, b: Self) {
        let x = *self;

    }
}

impl Contents for Reaction {
    open spec fn same_as(&self, other: Self) -> bool {
        let x = *self;
        let y = other;
        x.on.same_as(y.on)
                && x.filter.same_as(y.filter)
                && x.cond.same_as(y.cond)
                && impacts_same(x.effects@, y.effects@)
                && x.target == y.target
                && x.internal_cd.same_as(y.internal_cd)
                && x.charges == y.charges
    }
}

impl<M: IdMap> RemapIds<M> for Reaction {
    open spec fn remap_check(&self, m: &M) -> Result<(), M::Error> {
        let x = *self;
        then(x.on.remap_check(m), then(x.filter.remap_check(m), then(x.cond.remap_check(m), then(impacts_check(x.effects@, m), x.internal_cd.remap_check(m)))))
    }

    open spec fn remaps_to(&self, m: &M, new: Self) -> bool {
        let x = *self;
        let y = new;
        x.on.remaps_to(m, y.on)
                && x.filter.remaps_to(m, y.filter)
                && x.cond.remaps_to(m, y.cond)
                && impacts_remaps(x.effects@, m, y.effects@)
                && x.target == y.target
                && x.internal_cd.remaps_to(m, y.internal_cd)
                && x.charges == y.charges
    }

    open spec fn walked_to(&self, m: &M, new: Self) -> bool {
        let x = *self;
        let y = new;
        x.target == y.target && x.charges == y.charges && (if (x.on.remap_check(m)) is Err { x.on.walked_to(m, y.on) && x.filter == y.filter && x.cond == y.cond && x.effects == y.effects && x.internal_cd == y.internal_cd } else { x.on.remaps_to(m, y.on) && (if (x.filter.remap_check(m)) is Err { x.filter.walked_to(m, y.filter) && x.cond == y.cond && x.effects == y.effects && x.internal_cd == y.internal_cd } else { x.filter.remaps_to(m, y.filter) && (if (x.cond.remap_check(m)) is Err { x.cond.walked_to(m, y.cond) && x.effects == y.effects && x.internal_cd == y.internal_cd } else { x.cond.remaps_to(m, y.cond) && (if (impacts_check(x.effects@, m)) is Err { impacts_walked(x.effects@, m, y.effects@) && x.internal_cd == y.internal_cd } else { impacts_remaps(x.effects@, m, y.effects@) && (if (x.internal_cd.remap_check(m)) is Err { x.internal_cd.walked_to(m, y.internal_cd) } else { x.internal_cd.remaps_to(m, y.internal_cd) && true }) }) }) }) })
    }

    #[verifier::rlimit(60)]
    #[verifier::spinoff_prover]
    fn remap_ids(&mut self, m: &M) -> (r: Result<(), M::Error>) {
        let x = self;
        let r = x.on.remap_ids(m);
        if r.is_err() {
            return r;
        }
        let r = x.filter.remap_ids(m);
        if r.is_err() {
            return r;
        }
        let r = x.cond.remap_ids(m);
        if r.is_err() {
            return r;
        }
        let r = remap_impacts(&mut x.effects, m);
        if r.is_err() {
            return r;
        }
        let r = x.internal_cd.remap_ids(m);
        if r.is_err() {
            return r;
        }
        Ok(())
    }

    proof fn lemma_total(&self, m: &M) {
        let x = *self;
        x.on.lemma_total(m);
        x.filter.lemma_total(m);
        x.cond.lemma_total(m);
        lemma_impacts_total(x.effects@, m);
        x.internal_cd.lemma_total(m);
    }

    proof fn lemma_identity(&self, m: &M, new: Self) {
        let x = *self;
        let y = new;
        x.on.lemma_identity(m, y.on);
        x.filter.lemma_identity(m, y.filter);
        x.cond.lemma_identity(m, y.cond);
        lemma_impacts_identity(x.effects@, m, y.effects@);
        x.internal_cd.lemma_identity(m, y.internal_cd);
    }

    proof fn lemma_stable(&self, m: &M, a: Self, b: Self) {
        let x = *self;
        x.on.lemma_stable(m, a.on, b.on);
        x.filter.lemma_stable(m, a.filter, b.filter);
        x.cond.lemma_stable(m, a.cond, b.cond);
        lemma_impacts_stable(x.effects@, m, a.effects@, b.effects@);
        x.internal_cd.lemma_stable(m, a.internal_cd, b.internal_cd);
    }

    #[verifier::rlimit(60)]
    #[verifier::spinoff_prover]
    proof fn lemma_walk_keeps(&self, m: &M, new: Self) {
        let x = *self;
        let y = new;
        if (x.on.remap_check(m)) is Err { x.on.lemma_walk_keeps(m, y.on); x.filter.lemma_same_refl(m); x.cond.lemma_same_refl(m); lemma_impacts_same_refl(x.effects@, m); x.internal_cd.lemma_same_refl(m); } else { x.on.lemma_identity(m, y.on); if (x.filter.remap_check(m)) is Err { x.filter.lemma_walk_keeps(m, y.filter); x.cond.lemma_same_refl(m); lemma_impacts_same_refl(x.effects@, m); x.internal_cd.lemma_same_refl(m); } else { x.filter.lemma_identity(m, y.filter); if (x.cond.remap_check(m)) is Err { x.cond.lemma_walk_keeps(m, y.cond); lemma_impacts_same_refl(x.effects@, m); x.internal_cd.lemma_same_refl(m); } else { x.cond.lemma_identity(m, y.cond); if (impacts_check(x.effects@, m)) is Err { lemma_impacts_walk_keeps(x.effects@, m, y.effects@); x.internal_cd.lemma_same_refl(m); } else { lemma_impacts_identity(x.effects@, m, y.effects@); if (x.internal_cd.remap_check(m)) is Err { x.internal_cd.lemma_walk_keeps(m, y.internal_cd); } else { x.internal_cd.lemma_identity(m, y.internal_cd);  } } } } }
    }

    proof fn lemma_same_refl(&self, m: &M) {
        let x = *self;
        x.on.lemma_same_refl(m); x.filter.lemma_same_refl(m); x.cond.lemma_same_refl(m); lemma_impacts_same_refl(x.effects@, m); x.internal_cd.lemma_same_refl(m);
    }
}

impl<M1: IdMap, M2: IdMap> RemapPair<M1, M2> for Reaction {
    proof fn lemma_lands(&self, m1: &M1, m2: &M2, a: Self) {
        let x = *self;
        x.on.lemma_lands(m1, m2, a.on);
        x.filter.lemma_lands(m1, m2, a.filter);
        x.cond.lemma_lands(m1, m2, a.cond);
        lemma_impacts_lands(x.effects@, m1, m2, a.effects@);
        x.internal_cd.lemma_lands(m1, m2, a.internal_cd);
    }

    proof fn lemma_fixed(&self, m1: &M1, m2: &M2, a: Self, b: Self) {
        let x = *self;
        x.on.lemma_fixed(m1, m2, a.on, b.on);
        x.filter.lemma_fixed(m1, m2, a.filter, b.filter);
        x.cond.lemma_fixed(m1, m2, a.cond, b.cond);
        lemma_impacts_fixed(x.effects@, m1, m2, a.effects@, b.effects@);
        x.internal_cd.lemma_fixed(m1, m2, a.internal_cd, b.internal_cd);
    }
}

impl<M1: IdMap, M2: IdMap, M12: IdMap> RemapCompose<M1, M2, M12> for Reaction {
    proof fn lemma_compose(&self, m1: &M1, m2: &M2, m12: &M12, a: Self, b: Self) {
        let x = *self;
        x.on.lemma_compose(m1, m2, m12, a.on, b.on);
        x.filter.lemma_compose(m1, m2, m12, a.filter, b.filter);
        x.cond.lemma_compose(m1, m2, m12, a.cond, b.cond);
        lemma_impacts_compose(x.effects@, m1, m2, m12, a.effects@, b.effects@);
        x.internal_cd.lemma_compose(m1, m2, m12, a.internal_cd, b.internal_cd);
    }
}

impl Contents for Params {
    open spec fn same_as(&self, other: Self) -> bool {
        let x = *self;
        let y = other;
        param_entries_same(x.0@, y.0@)
    }
}

impl<M: IdMap> RemapIds<M> for Params {
    open spec fn remap_check(&self, m: &M) -> Result<(), M::Error> {
        let x = *self;
        then(param_entries_check(x.0@, m), Ok(()))
    }

    open spec fn remaps_to(&self, m: &M, new: Self) -> bool {
        let x = *self;
        let y = new;
        param_entries_remaps(x.0@, m, y.0@)
    }

    open spec fn walked_to(&self, m: &M, new: Self) -> bool {
        let x = *self;
        let y = new;
        (if (param_entries_check(x.0@, m)) is Err { param_entries_walked(x.0@, m, y.0@) } else { param_entries_remaps(x.0@, m, y.0@) && true })
    }

    #[verifier::rlimit(60)]
    #[verifier::spinoff_prover]
    fn remap_ids(&mut self, m: &M) -> (r: Result<(), M::Error>) {
        let x = self;
        let r = remap_param_entries(&mut x.0, m);
        if r.is_err() {
            return r;
        }
        Ok(())
    }

    proof fn lemma_total(&self, m: &M) {
        let x = *self;
        lemma_param_entries_total(x.0@, m);
    }

    proof fn lemma_identity(&self, m: &M, new: Self) {
        let x = *self;
        let y = new;
        lemma_param_entries_identity(x.0@, m, y.0@);
    }

    proof fn lemma_stable(&self, m: &M, a: Self, b: Self) {
        let x = *self;
        lemma_param_entries_stable(x.0@, m, a.0@, b.0@);
    }

    #[verifier::rlimit(60)]
    #[verifier::spinoff_prover]
    proof fn lemma_walk_keeps(&self, m: &M, new: Self) {
        let x = *self;
        let y = new;
        if (param_entries_check(x.0@, m)) is Err { lemma_param_entries_walk_keeps(x.0@, m, y.0@); } else { lemma_param_entries_identity(x.0@, m, y.0@);  }
    }

    proof fn lemma_same_refl(&self, m: &M) {
        let x = *self;
        lemma_param_entries_same_refl(x.0@, m);
    }
}

impl<M1: IdMap, M2: IdMap> RemapPair<M1, M2> for Params {
    proof fn lemma_lands(&self, m1: &M1, m2: &M2, a: Self) {
        let x = *self;
        lemma_param_entries_lands(x.0@, m1, m2, a.0@);
    }

    proof fn lemma_fixed(&self, m1: &M1, m2: &M2, a: Self, b: Self) {
        let x = *self;
        lemma_param_entries_fixed(x.0@, m1, m2, a.0@, b.0@);
    }
}

impl<M1: IdMap, M2: IdMap, M12: IdMap> RemapCompose<M1, M2, M12> for Params {
    proof fn lemma_compose(&self, m1: &M1, m2: &M2, m12: &M12, a: Self, b: Self) {
        let x = *self;
        lemma_param_entries_compose(x.0@, m1, m2, m12, a.0@, b.0@);
    }
}

impl Contents for Targeting {
    open spec fn same_as(&self, other: Self) -> bool {
        let x = *self;
        let y = other;
        match (x, y) {
            (Targeting::NoTarget, Targeting::NoTarget) => true,
            (Targeting::Unit { filter: x_filter }, Targeting::Unit { filter: y_filter }) => x_filter.same_as(y_filter),
            (Targeting::Point, Targeting::Point) => true,
            (Targeting::Vector, Targeting::Vector) => true,
            (Targeting::SelfCast, Targeting::SelfCast) => true,
            _ => false,
        }
    }
}

impl<M: IdMap> RemapIds<M> for Targeting {
    open spec fn remap_check(&self, m: &M) -> Result<(), M::Error> {
        let x = *self;
        match x {
            Targeting::NoTarget => Ok(()),
            Targeting::Unit { filter: x_filter } => then(x_filter.remap_check(m), Ok(())),
            Targeting::Point => Ok(()),
            Targeting::Vector => Ok(()),
            Targeting::SelfCast => Ok(()),
        }
    }

    open spec fn remaps_to(&self, m: &M, new: Self) -> bool {
        let x = *self;
        let y = new;
        match (x, y) {
            (Targeting::NoTarget, Targeting::NoTarget) => true,
            (Targeting::Unit { filter: x_filter }, Targeting::Unit { filter: y_filter }) => x_filter.remaps_to(m, y_filter),
            (Targeting::Point, Targeting::Point) => true,
            (Targeting::Vector, Targeting::Vector) => true,
            (Targeting::SelfCast, Targeting::SelfCast) => true,
            _ => false,
        }
    }

    open spec fn walked_to(&self, m: &M, new: Self) -> bool {
        let x = *self;
        let y = new;
        match (x, y) {
            (Targeting::NoTarget, Targeting::NoTarget) => true,
            (Targeting::Unit { filter: x_filter }, Targeting::Unit { filter: y_filter }) => (if (x_filter.remap_check(m)) is Err { x_filter.walked_to(m, y_filter) } else { x_filter.remaps_to(m, y_filter) && true }),
            (Targeting::Point, Targeting::Point) => true,
            (Targeting::Vector, Targeting::Vector) => true,
            (Targeting::SelfCast, Targeting::SelfCast) => true,
            _ => false,
        }
    }

    #[verifier::rlimit(60)]
    #[verifier::spinoff_prover]
    fn remap_ids(&mut self, m: &M) -> (r: Result<(), M::Error>) {
        let x = self;
        match x {
            Targeting::NoTarget => {
            },
            Targeting::Unit { filter: x_filter } => {
                let r = x_filter.remap_ids(m);
                if r.is_err() {
                    return r;
                }
            },
            Targeting::Point => {
            },
            Targeting::Vector => {
            },
            Targeting::SelfCast => {
            },
        }
        Ok(())
    }

    proof fn lemma_total(&self, m: &M) {
        let x = *self;
        match x {
            Targeting::NoTarget => {  },
            Targeting::Unit { filter: x_filter } => { x_filter.lemma_total(m); },
            Targeting::Point => {  },
            Targeting::Vector => {  },
            Targeting::SelfCast => {  },
        }
    }

    proof fn lemma_identity(&self, m: &M, new: Self) {
        let x = *self;
        let y = new;
        match (x, y) {
            (Targeting::NoTarget, Targeting::NoTarget) => {  },
            (Targeting::Unit { filter: x_filter }, Targeting::Unit { filter: y_filter }) => { x_filter.lemma_identity(m, y_filter); },
            (Targeting::Point, Targeting::Point) => {  },
            (Targeting::Vector, Targeting::Vector) => {  },
            (Targeting::SelfCast, Targeting::SelfCast) => {  },
            _ => {},
        }
    }

    proof fn lemma_stable(&self, m: &M, a: Self, b: Self) {
        let x = *self;
        match (x, a, b) {
            (Targeting::NoTarget, Targeting::NoTarget, Targeting::NoTarget) => {  },
            (Targeting::Unit { filter: x_filter }, Targeting::Unit { filter: a_filter }, Targeting::Unit { filter: b_filter }) => { x_filter.lemma_stable(m, a_filter, b_filter); },
            (Targeting::Point, Targeting::Point, Targeting::Point) => {  },
            (Targeting::Vector, Targeting::Vector, Targeting::Vector) => {  },
            (Targeting::SelfCast, Targeting::SelfCast, Targeting::SelfCast) => {  },
            _ => {},
        }
    }

    #[verifier::rlimit(60)]
    #[verifier::spinoff_prover]
    proof fn lemma_walk_keeps(&self, m: &M, new: Self) {
        let x = *self;
        let y = new;
        match (x, y) {
            (Targeting::NoTarget, Targeting::NoTarget) => {  },
            (Targeting::Unit { filter: x_filter }, Targeting::Unit { filter: y_filter }) => { if (x_filter.remap_check(m)) is Err { x_filter.lemma_walk_keeps(m, y_filter); } else { x_filter.lemma_identity(m, y_filter);  } },
            (Targeting::Point, Targeting::Point) => {  },
            (Targeting::Vector, Targeting::Vector) => {  },
            (Targeting::SelfCast, Targeting::SelfCast) => {  },
            _ => {},
        }
    }

    proof fn lemma_same_refl(&self, m: &M) {
        let x = *self;
        match x {
            Targeting::NoTarget => {  },
            Targeting::Unit { filter: x_filter } => { x_filter.lemma_same_refl(m); },
            Targeting::Point => {  },
            Targeting::Vector => {  },
            Targeting::SelfCast => {  },
        }
    }
}

impl<M1: IdMap, M2: IdMap> RemapPair<M1, M2> for Targeting {
    proof fn lemma_lands(&self, m1: &M1, m2: &M2, a: Self) {
        let x = *self;
        match (x, a) {
            (Targeting::NoTarget, Targeting::NoTarget) => {  },
            (Targeting::Unit { filter: x_filter }, Targeting::Unit { filter: a_filter }) => { x_filter.lemma_lands(m1, m2, a_filter); },
            (Targeting::Point, Targeting::Point) => {  },
            (Targeting::Vector, Targeting::Vector) => {  },
            (Targeting::SelfCast, Targeting::SelfCast) => {  },
            _ => {},
        }
    }

    proof fn lemma_fixed(&self, m1: &M1, m2: &M2, a: Self, b: Self) {
        let x = *self;
        match (x, a, b) {
            (Targeting::NoTarget, Targeting::NoTarget, Targeting::NoTarget) => {  },
            (Targeting::Unit { filter: x_filter }, Targeting::Unit { filter: a_filter }, Targeting::Unit { filter: b_filter }) => { x_filter.lemma_fixed(m1, m2, a_filter, b_filter); },
            (Targeting::Point, Targeting::Point, Targeting::Point) => {  },
            (Targeting::Vector, Targeting::Vector, Targeting::Vector) => {  },
            (Targeting::SelfCast, Targeting::SelfCast, Targeting::SelfCast) => {  },
            _ => {},
        }
    }
}

impl<M1: IdMap, M2: IdMap, M12: IdMap> RemapCompose<M1, M2, M12> for Targeting {
    proof fn lemma_compose(&self, m1: &M1, m2: &M2, m12: &M12, a: Self, b: Self) {
        let x = *self;
        match (x, a, b) {
            (Targeting::NoTarget, Targeting::NoTarget, Targeting::NoTarget) => {  },
            (Targeting::Unit { filter: x_filter }, Targeting::Unit { filter: a_filter }, Targeting::Unit { filter: b_filter }) => { x_filter.lemma_compose(m1, m2, m12, a_filter, b_filter); },
            (Targeting::Point, Targeting::Point, Targeting::Point) => {  },
            (Targeting::Vector, Targeting::Vector, Targeting::Vector) => {  },
            (Targeting::SelfCast, Targeting::SelfCast, Targeting::SelfCast) => {  },
            _ => {},
        }
    }
}

impl Contents for CastSpec {
    open spec fn same_as(&self, other: Self) -> bool {
        let x = *self;
        let y = other;
        match (x, y) {
            (CastSpec::Instant, CastSpec::Instant) => true,
            (CastSpec::Cast { time: x_time, movable: x_movable }, CastSpec::Cast { time: y_time, movable: y_movable }) => x_time.same_as(y_time) && x_movable == y_movable,
            (CastSpec::Channel { time: x_time, movable: x_movable, tick: x_tick }, CastSpec::Channel { time: y_time, movable: y_movable, tick: y_tick }) => x_time.same_as(y_time) && x_movable == y_movable && x_tick.same_as(y_tick),
            _ => false,
        }
    }
}

impl<M: IdMap> RemapIds<M> for CastSpec {
    open spec fn remap_check(&self, m: &M) -> Result<(), M::Error> {
        let x = *self;
        match x {
            CastSpec::Instant => Ok(()),
            CastSpec::Cast { time: x_time, movable: x_movable } => then(x_time.remap_check(m), Ok(())),
            CastSpec::Channel { time: x_time, movable: x_movable, tick: x_tick } => then(x_time.remap_check(m), x_tick.remap_check(m)),
        }
    }

    open spec fn remaps_to(&self, m: &M, new: Self) -> bool {
        let x = *self;
        let y = new;
        match (x, y) {
            (CastSpec::Instant, CastSpec::Instant) => true,
            (CastSpec::Cast { time: x_time, movable: x_movable }, CastSpec::Cast { time: y_time, movable: y_movable }) => x_time.remaps_to(m, y_time) && x_movable == y_movable,
            (CastSpec::Channel { time: x_time, movable: x_movable, tick: x_tick }, CastSpec::Channel { time: y_time, movable: y_movable, tick: y_tick }) => x_time.remaps_to(m, y_time) && x_movable == y_movable && x_tick.remaps_to(m, y_tick),
            _ => false,
        }
    }

    open spec fn walked_to(&self, m: &M, new: Self) -> bool {
        let x = *self;
        let y = new;
        match (x, y) {
            (CastSpec::Instant, CastSpec::Instant) => true,
            (CastSpec::Cast { time: x_time, movable: x_movable }, CastSpec::Cast { time: y_time, movable: y_movable }) => x_movable == y_movable && (if (x_time.remap_check(m)) is Err { x_time.walked_to(m, y_time) } else { x_time.remaps_to(m, y_time) && true }),
            (CastSpec::Channel { time: x_time, movable: x_movable, tick: x_tick }, CastSpec::Channel { time: y_time, movable: y_movable, tick: y_tick }) => x_movable == y_movable && (if (x_time.remap_check(m)) is Err { x_time.walked_to(m, y_time) && x_tick == y_tick } else { x_time.remaps_to(m, y_time) && (if (x_tick.remap_check(m)) is Err { x_tick.walked_to(m, y_tick) } else { x_tick.remaps_to(m, y_tick) && true }) }),
            _ => false,
        }
    }

    #[verifier::rlimit(60)]
    #[verifier::spinoff_prover]
    fn remap_ids(&mut self, m: &M) -> (r: Result<(), M::Error>) {
        let x = self;
        match x {
            CastSpec::Instant => {
            },
            CastSpec::Cast { time: x_time, movable: _ } => {
                let r = x_time.remap_ids(m);
                if r.is_err() {
                    return r;
                }
            },
            CastSpec::Channel { time: x_time, movable: _, tick: x_tick } => {
                let r = x_time.remap_ids(m);
                if r.is_err() {
                    return r;
                }
                let r = x_tick.remap_ids(m);
                if r.is_err() {
                    return r;
                }
            },
        }
        Ok(())
    }

    proof fn lemma_total(&self, m: &M) {
        let x = *self;
        match x {
            CastSpec::Instant => {  },
            CastSpec::Cast { time: x_time, movable: x_movable } => { x_time.lemma_total(m); },
            CastSpec::Channel { time: x_time, movable: x_movable, tick: x_tick } => { x_time.lemma_total(m); x_tick.lemma_total(m); },
        }
    }

    proof fn lemma_identity(&self, m: &M, new: Self) {
        let x = *self;
        let y = new;
        match (x, y) {
            (CastSpec::Instant, CastSpec::Instant) => {  },
            (CastSpec::Cast { time: x_time, movable: x_movable }, CastSpec::Cast { time: y_time, movable: y_movable }) => { x_time.lemma_identity(m, y_time); },
            (CastSpec::Channel { time: x_time, movable: x_movable, tick: x_tick }, CastSpec::Channel { time: y_time, movable: y_movable, tick: y_tick }) => { x_time.lemma_identity(m, y_time); x_tick.lemma_identity(m, y_tick); },
            _ => {},
        }
    }

    proof fn lemma_stable(&self, m: &M, a: Self, b: Self) {
        let x = *self;
        match (x, a, b) {
            (CastSpec::Instant, CastSpec::Instant, CastSpec::Instant) => {  },
            (CastSpec::Cast { time: x_time, movable: x_movable }, CastSpec::Cast { time: a_time, movable: a_movable }, CastSpec::Cast { time: b_time, movable: b_movable }) => { x_time.lemma_stable(m, a_time, b_time); },
            (CastSpec::Channel { time: x_time, movable: x_movable, tick: x_tick }, CastSpec::Channel { time: a_time, movable: a_movable, tick: a_tick }, CastSpec::Channel { time: b_time, movable: b_movable, tick: b_tick }) => { x_time.lemma_stable(m, a_time, b_time); x_tick.lemma_stable(m, a_tick, b_tick); },
            _ => {},
        }
    }

    #[verifier::rlimit(60)]
    #[verifier::spinoff_prover]
    proof fn lemma_walk_keeps(&self, m: &M, new: Self) {
        let x = *self;
        let y = new;
        match (x, y) {
            (CastSpec::Instant, CastSpec::Instant) => {  },
            (CastSpec::Cast { time: x_time, movable: x_movable }, CastSpec::Cast { time: y_time, movable: y_movable }) => { if (x_time.remap_check(m)) is Err { x_time.lemma_walk_keeps(m, y_time); } else { x_time.lemma_identity(m, y_time);  } },
            (CastSpec::Channel { time: x_time, movable: x_movable, tick: x_tick }, CastSpec::Channel { time: y_time, movable: y_movable, tick: y_tick }) => { if (x_time.remap_check(m)) is Err { x_time.lemma_walk_keeps(m, y_time); x_tick.lemma_same_refl(m); } else { x_time.lemma_identity(m, y_time); if (x_tick.remap_check(m)) is Err { x_tick.lemma_walk_keeps(m, y_tick); } else { x_tick.lemma_identity(m, y_tick);  } } },
            _ => {},
        }
    }

    proof fn lemma_same_refl(&self, m: &M) {
        let x = *self;
        match x {
            CastSpec::Instant => {  },
            CastSpec::Cast { time: x_time, movable: x_movable } => { x_time.lemma_same_refl(m); },
            CastSpec::Channel { time: x_time, movable: x_movable, tick: x_tick } => { x_time.lemma_same_refl(m); x_tick.lemma_same_refl(m); },
        }
    }
}

impl<M1: IdMap, M2: IdMap> RemapPair<M1, M2> for CastSpec {
    proof fn lemma_lands(&self, m1: &M1, m2: &M2, a: Self) {
        let x = *self;
        match (x, a) {
            (CastSpec::Instant, CastSpec::Instant) => {  },
            (CastSpec::Cast { time: x_time, movable: x_movable }, CastSpec::Cast { time: a_time, movable: a_movable }) => { x_time.lemma_lands(m1, m2, a_time); },
            (CastSpec::Channel { time: x_time, movable: x_movable, tick: x_tick }, CastSpec::Channel { time: a_time, movable: a_movable, tick: a_tick }) => { x_time.lemma_lands(m1, m2, a_time); x_tick.lemma_lands(m1, m2, a_tick); },
            _ => {},
        }
    }

    proof fn lemma_fixed(&self, m1: &M1, m2: &M2, a: Self, b: Self) {
        let x = *self;
        match (x, a, b) {
            (CastSpec::Instant, CastSpec::Instant, CastSpec::Instant) => {  },
            (CastSpec::Cast { time: x_time, movable: x_movable }, CastSpec::Cast { time: a_time, movable: a_movable }, CastSpec::Cast { time: b_time, movable: b_movable }) => { x_time.lemma_fixed(m1, m2, a_time, b_time); },
            (CastSpec::Channel { time: x_time, movable: x_movable, tick: x_tick }, CastSpec::Channel { time: a_time, movable: a_movable, tick: a_tick }, CastSpec::Channel { time: b_time, movable: b_movable, tick: b_tick }) => { x_time.lemma_fixed(m1, m2, a_time, b_time); x_tick.lemma_fixed(m1, m2, a_tick, b_tick); },
            _ => {},
        }
    }
}

impl<M1: IdMap, M2: IdMap, M12: IdMap> RemapCompose<M1, M2, M12> for CastSpec {
    proof fn lemma_compose(&self, m1: &M1, m2: &M2, m12: &M12, a: Self, b: Self) {
        let x = *self;
        match (x, a, b) {
            (CastSpec::Instant, CastSpec::Instant, CastSpec::Instant) => {  },
            (CastSpec::Cast { time: x_time, movable: x_movable }, CastSpec::Cast { time: a_time, movable: a_movable }, CastSpec::Cast { time: b_time, movable: b_movable }) => { x_time.lemma_compose(m1, m2, m12, a_time, b_time); },
            (CastSpec::Channel { time: x_time, movable: x_movable, tick: x_tick }, CastSpec::Channel { time: a_time, movable: a_movable, tick: a_tick }, CastSpec::Channel { time: b_time, movable: b_movable, tick: b_tick }) => { x_time.lemma_compose(m1, m2, m12, a_time, b_time); x_tick.lemma_compose(m1, m2, m12, a_tick, b_tick); },
            _ => {},
        }
    }
}

impl Contents for Cost {
    open spec fn same_as(&self, other: Self) -> bool {
        let x = *self;
        let y = other;
        match (x, y) {
            (Cost::Resource { res: x_res, amount: x_amount }, Cost::Resource { res: y_res, amount: y_amount }) => x_res == y_res && x_amount.same_as(y_amount),
            (Cost::Charge, Cost::Charge) => true,
            (Cost::Health { amount: x_amount }, Cost::Health { amount: y_amount }) => x_amount.same_as(y_amount),
            _ => false,
        }
    }
}

impl<M: IdMap> RemapIds<M> for Cost {
    open spec fn remap_check(&self, m: &M) -> Result<(), M::Error> {
        let x = *self;
        match x {
            Cost::Resource { res: x_res, amount: x_amount } => then(leaf(m.resource_spec(x_res)), x_amount.remap_check(m)),
            Cost::Charge => Ok(()),
            Cost::Health { amount: x_amount } => then(x_amount.remap_check(m), Ok(())),
        }
    }

    open spec fn remaps_to(&self, m: &M, new: Self) -> bool {
        let x = *self;
        let y = new;
        match (x, y) {
            (Cost::Resource { res: x_res, amount: x_amount }, Cost::Resource { res: y_res, amount: y_amount }) => m.resource_spec(x_res) == Ok::<ResourceId, M::Error>(y_res) && x_amount.remaps_to(m, y_amount),
            (Cost::Charge, Cost::Charge) => true,
            (Cost::Health { amount: x_amount }, Cost::Health { amount: y_amount }) => x_amount.remaps_to(m, y_amount),
            _ => false,
        }
    }

    open spec fn walked_to(&self, m: &M, new: Self) -> bool {
        let x = *self;
        let y = new;
        match (x, y) {
            (Cost::Resource { res: x_res, amount: x_amount }, Cost::Resource { res: y_res, amount: y_amount }) => (if (leaf(m.resource_spec(x_res))) is Err { x_res == y_res && x_amount == y_amount } else { m.resource_spec(x_res) == Ok::<ResourceId, M::Error>(y_res) && (if (x_amount.remap_check(m)) is Err { x_amount.walked_to(m, y_amount) } else { x_amount.remaps_to(m, y_amount) && true }) }),
            (Cost::Charge, Cost::Charge) => true,
            (Cost::Health { amount: x_amount }, Cost::Health { amount: y_amount }) => (if (x_amount.remap_check(m)) is Err { x_amount.walked_to(m, y_amount) } else { x_amount.remaps_to(m, y_amount) && true }),
            _ => false,
        }
    }

    #[verifier::rlimit(60)]
    #[verifier::spinoff_prover]
    fn remap_ids(&mut self, m: &M) -> (r: Result<(), M::Error>) {
        let x = self;
        match x {
            Cost::Resource { res: x_res, amount: x_amount } => {
                match m.resource(*x_res) {
                    Ok(v) => { *x_res = v; },
                    Err(e) => { return Err(e); },
                }
                let r = x_amount.remap_ids(m);
                if r.is_err() {
                    return r;
                }
            },
            Cost::Charge => {
            },
            Cost::Health { amount: x_amount } => {
                let r = x_amount.remap_ids(m);
                if r.is_err() {
                    return r;
                }
            },
        }
        Ok(())
    }

    proof fn lemma_total(&self, m: &M) {
        let x = *self;
        match x {
            Cost::Resource { res: x_res, amount: x_amount } => { x_amount.lemma_total(m); },
            Cost::Charge => {  },
            Cost::Health { amount: x_amount } => { x_amount.lemma_total(m); },
        }
    }

    proof fn lemma_identity(&self, m: &M, new: Self) {
        let x = *self;
        let y = new;
        match (x, y) {
            (Cost::Resource { res: x_res, amount: x_amount }, Cost::Resource { res: y_res, amount: y_amount }) => { x_amount.lemma_identity(m, y_amount); },
            (Cost::Charge, Cost::Charge) => {  },
            (Cost::Health { amount: x_amount }, Cost::Health { amount: y_amount }) => { x_amount.lemma_identity(m, y_amount); },
            _ => {},
        }
    }

    proof fn lemma_stable(&self, m: &M, a: Self, b: Self) {
        let x = *self;
        match (x, a, b) {
            (Cost::Resource { res: x_res, amount: x_amount }, Cost::Resource { res: a_res, amount: a_amount }, Cost::Resource { res: b_res, amount: b_amount }) => { x_amount.lemma_stable(m, a_amount, b_amount); },
            (Cost::Charge, Cost::Charge, Cost::Charge) => {  },
            (Cost::Health { amount: x_amount }, Cost::Health { amount: a_amount }, Cost::Health { amount: b_amount }) => { x_amount.lemma_stable(m, a_amount, b_amount); },
            _ => {},
        }
    }

    #[verifier::rlimit(60)]
    #[verifier::spinoff_prover]
    proof fn lemma_walk_keeps(&self, m: &M, new: Self) {
        let x = *self;
        let y = new;
        match (x, y) {
            (Cost::Resource { res: x_res, amount: x_amount }, Cost::Resource { res: y_res, amount: y_amount }) => { if (leaf(m.resource_spec(x_res))) is Err { x_amount.lemma_same_refl(m); } else {  if (x_amount.remap_check(m)) is Err { x_amount.lemma_walk_keeps(m, y_amount); } else { x_amount.lemma_identity(m, y_amount);  } } },
            (Cost::Charge, Cost::Charge) => {  },
            (Cost::Health { amount: x_amount }, Cost::Health { amount: y_amount }) => { if (x_amount.remap_check(m)) is Err { x_amount.lemma_walk_keeps(m, y_amount); } else { x_amount.lemma_identity(m, y_amount);  } },
            _ => {},
        }
    }

    proof fn lemma_same_refl(&self, m: &M) {
        let x = *self;
        match x {
            Cost::Resource { res: x_res, amount: x_amount } => { x_amount.lemma_same_refl(m); },
            Cost::Charge => {  },
            Cost::Health { amount: x_amount } => { x_amount.lemma_same_refl(m); },
        }
    }
}

impl<M1: IdMap, M2: IdMap> RemapPair<M1, M2> for Cost {
    proof fn lemma_lands(&self, m1: &M1, m2: &M2, a: Self) {
        let x = *self;
        match (x, a) {
            (Cost::Resource { res: x_res, amount: x_amount }, Cost::Resource { res: a_res, amount: a_amount }) => { x_amount.lemma_lands(m1, m2, a_amount); },
            (Cost::Charge, Cost::Charge) => {  },
            (Cost::Health { amount: x_amount }, Cost::Health { amount: a_amount }) => { x_amount.lemma_lands(m1, m2, a_amount); },
            _ => {},
        }
    }

    proof fn lemma_fixed(&self, m1: &M1, m2: &M2, a: Self, b: Self) {
        let x = *self;
        match (x, a, b) {
            (Cost::Resource { res: x_res, amount: x_amount }, Cost::Resource { res: a_res, amount: a_amount }, Cost::Resource { res: b_res, amount: b_amount }) => { x_amount.lemma_fixed(m1, m2, a_amount, b_amount); },
            (Cost::Charge, Cost::Charge, Cost::Charge) => {  },
            (Cost::Health { amount: x_amount }, Cost::Health { amount: a_amount }, Cost::Health { amount: b_amount }) => { x_amount.lemma_fixed(m1, m2, a_amount, b_amount); },
            _ => {},
        }
    }
}

impl<M1: IdMap, M2: IdMap, M12: IdMap> RemapCompose<M1, M2, M12> for Cost {
    proof fn lemma_compose(&self, m1: &M1, m2: &M2, m12: &M12, a: Self, b: Self) {
        let x = *self;
        match (x, a, b) {
            (Cost::Resource { res: x_res, amount: x_amount }, Cost::Resource { res: a_res, amount: a_amount }, Cost::Resource { res: b_res, amount: b_amount }) => { x_amount.lemma_compose(m1, m2, m12, a_amount, b_amount); },
            (Cost::Charge, Cost::Charge, Cost::Charge) => {  },
            (Cost::Health { amount: x_amount }, Cost::Health { amount: a_amount }, Cost::Health { amount: b_amount }) => { x_amount.lemma_compose(m1, m2, m12, a_amount, b_amount); },
            _ => {},
        }
    }
}

impl Contents for AbilityDescriptor {
    open spec fn same_as(&self, other: Self) -> bool {
        let x = *self;
        let y = other;
        x.id == y.id
                && x.params.same_as(y.params)
                && x.targeting.same_as(y.targeting)
                && x.cast.same_as(y.cast)
                && x.cost.same_as(y.cost)
                && x.cast_gate.same_as(y.cast_gate)
                && impacts_same(x.on_cast_start@, y.on_cast_start@)
                && impacts_same(x.on_cast@, y.on_cast@)
                && tags_same(x.tags@, y.tags@)
    }
}

impl<M: IdMap> RemapIds<M> for AbilityDescriptor {
    open spec fn remap_check(&self, m: &M) -> Result<(), M::Error> {
        let x = *self;
        then(leaf(m.ability_spec(x.id)), then(x.params.remap_check(m), then(x.targeting.remap_check(m), then(x.cast.remap_check(m), then(x.cost.remap_check(m), then(x.cast_gate.remap_check(m), then(impacts_check(x.on_cast_start@, m), then(impacts_check(x.on_cast@, m), tags_check(x.tags@, m)))))))))
    }

    open spec fn remaps_to(&self, m: &M, new: Self) -> bool {
        let x = *self;
        let y = new;
        m.ability_spec(x.id) == Ok::<AbilityId, M::Error>(y.id)
                && x.params.remaps_to(m, y.params)
                && x.targeting.remaps_to(m, y.targeting)
                && x.cast.remaps_to(m, y.cast)
                && x.cost.remaps_to(m, y.cost)
                && x.cast_gate.remaps_to(m, y.cast_gate)
                && impacts_remaps(x.on_cast_start@, m, y.on_cast_start@)
                && impacts_remaps(x.on_cast@, m, y.on_cast@)
                && tags_remaps(x.tags@, m, y.tags@)
    }

    open spec fn walked_to(&self, m: &M, new: Self) -> bool {
        let x = *self;
        let y = new;
        (if (leaf(m.ability_spec(x.id))) is Err { x.id == y.id && x.params == y.params && x.targeting == y.targeting && x.cast == y.cast && x.cost == y.cost && x.cast_gate == y.cast_gate && x.on_cast_start == y.on_cast_start && x.on_cast == y.on_cast && x.tags == y.tags } else { m.ability_spec(x.id) == Ok::<AbilityId, M::Error>(y.id) && (if (x.params.remap_check(m)) is Err { x.params.walked_to(m, y.params) && x.targeting == y.targeting && x.cast == y.cast && x.cost == y.cost && x.cast_gate == y.cast_gate && x.on_cast_start == y.on_cast_start && x.on_cast == y.on_cast && x.tags == y.tags } else { x.params.remaps_to(m, y.params) && (if (x.targeting.remap_check(m)) is Err { x.targeting.walked_to(m, y.targeting) && x.cast == y.cast && x.cost == y.cost && x.cast_gate == y.cast_gate && x.on_cast_start == y.on_cast_start && x.on_cast == y.on_cast && x.tags == y.tags } else { x.targeting.remaps_to(m, y.targeting) && (if (x.cast.remap_check(m)) is Err { x.cast.walked_to(m, y.cast) && x.cost == y.cost && x.cast_gate == y.cast_gate && x.on_cast_start == y.on_cast_start && x.on_cast == y.on_cast && x.tags == y.tags } else { x.cast.remaps_to(m, y.cast) && (if (x.cost.remap_check(m)) is Err { x.cost.walked_to(m, y.cost) && x.cast_gate == y.cast_gate && x.on_cast_start == y.on_cast_start && x.on_cast == y.on_cast && x.tags == y.tags } else { x.cost.remaps_to(m, y.cost) && (if (x.cast_gate.remap_check(m)) is Err { x.cast_gate.walked_to(m, y.cast_gate) && x.on_cast_start == y.on_cast_start && x.on_cast == y.on_cast && x.tags == y.tags } else { x.cast_gate.remaps_to(m, y.cast_gate) && (if (impacts_check(x.on_cast_start@, m)) is Err { impacts_walked(x.on_cast_start@, m, y.on_cast_start@) && x.on_cast == y.on_cast && x.tags == y.tags } else { impacts_remaps(x.on_cast_start@, m, y.on_cast_start@) && (if (impacts_check(x.on_cast@, m)) is Err { impacts_walked(x.on_cast@, m, y.on_cast@) && x.tags == y.tags } else { impacts_remaps(x.on_cast@, m, y.on_cast@) && (if (tags_check(x.tags@, m)) is Err { tags_walked(x.tags@, m, y.tags@) } else { tags_remaps(x.tags@, m, y.tags@) && true }) }) }) }) }) }) }) }) })
    }

    #[verifier::rlimit(60)]
    #[verifier::spinoff_prover]
    fn remap_ids(&mut self, m: &M) -> (r: Result<(), M::Error>) {
        let x = self;
        match m.ability(x.id) {
            Ok(v) => { x.id = v; },
            Err(e) => { return Err(e); },
        }
        let r = x.params.remap_ids(m);
        if r.is_err() {
            return r;
        }
        let r = x.targeting.remap_ids(m);
        if r.is_err() {
            return r;
        }
        let r = x.cast.remap_ids(m);
        if r.is_err() {
            return r;
        }
        let r = x.cost.remap_ids(m);
        if r.is_err() {
            return r;
        }
        let r = x.cast_gate.remap_ids(m);
        if r.is_err() {
            return r;
        }
        let r = remap_impacts(&mut x.on_cast_start, m);
        if r.is_err() {
            return r;
        }
        let r = remap_impacts(&mut x.on_cast, m);
        if r.is_err() {
            return r;
        }
        let r = remap_tags(&mut x.tags, m);
        if r.is_err() {
            return r;
        }
        Ok(())
    }

    proof fn lemma_total(&self, m: &M) {
        let x = *self;
        x.params.lemma_total(m);
        x.targeting.lemma_total(m);
        x.cast.lemma_total(m);
        x.cost.lemma_total(m);
        x.cast_gate.lemma_total(m);
        lemma_impacts_total(x.on_cast_start@, m);
        lemma_impacts_total(x.on_cast@, m);
        lemma_tags_total(x.tags@, m);
    }

    proof fn lemma_identity(&self, m: &M, new: Self) {
        let x = *self;
        let y = new;
        x.params.lemma_identity(m, y.params);
        x.targeting.lemma_identity(m, y.targeting);
        x.cast.lemma_identity(m, y.cast);
        x.cost.lemma_identity(m, y.cost);
        x.cast_gate.lemma_identity(m, y.cast_gate);
        lemma_impacts_identity(x.on_cast_start@, m, y.on_cast_start@);
        lemma_impacts_identity(x.on_cast@, m, y.on_cast@);
        lemma_tags_identity(x.tags@, m, y.tags@);
    }

    proof fn lemma_stable(&self, m: &M, a: Self, b: Self) {
        let x = *self;
        x.params.lemma_stable(m, a.params, b.params);
        x.targeting.lemma_stable(m, a.targeting, b.targeting);
        x.cast.lemma_stable(m, a.cast, b.cast);
        x.cost.lemma_stable(m, a.cost, b.cost);
        x.cast_gate.lemma_stable(m, a.cast_gate, b.cast_gate);
        lemma_impacts_stable(x.on_cast_start@, m, a.on_cast_start@, b.on_cast_start@);
        lemma_impacts_stable(x.on_cast@, m, a.on_cast@, b.on_cast@);
        lemma_tags_stable(x.tags@, m, a.tags@, b.tags@);
    }

    #[verifier::rlimit(60)]
    #[verifier::spinoff_prover]
    proof fn lemma_walk_keeps(&self, m: &M, new: Self) {
        let x = *self;
        let y = new;
        if (leaf(m.ability_spec(x.id))) is Err { x.params.lemma_same_refl(m); x.targeting.lemma_same_refl(m); x.cast.lemma_same_refl(m); x.cost.lemma_same_refl(m); x.cast_gate.lemma_same_refl(m); lemma_impacts_same_refl(x.on_cast_start@, m); lemma_impacts_same_refl(x.on_cast@, m); lemma_tags_same_refl(x.tags@, m); } else {  if (x.params.remap_check(m)) is Err { x.params.lemma_walk_keeps(m, y.params); x.targeting.lemma_same_refl(m); x.cast.lemma_same_refl(m); x.cost.lemma_same_refl(m); x.cast_gate.lemma_same_refl(m); lemma_impacts_same_refl(x.on_cast_start@, m); lemma_impacts_same_refl(x.on_cast@, m); lemma_tags_same_refl(x.tags@, m); } else { x.params.lemma_identity(m, y.params); if (x.targeting.remap_check(m)) is Err { x.targeting.lemma_walk_keeps(m, y.targeting); x.cast.lemma_same_refl(m); x.cost.lemma_same_refl(m); x.cast_gate.lemma_same_refl(m); lemma_impacts_same_refl(x.on_cast_start@, m); lemma_impacts_same_refl(x.on_cast@, m); lemma_tags_same_refl(x.tags@, m); } else { x.targeting.lemma_identity(m, y.targeting); if (x.cast.remap_check(m)) is Err { x.cast.lemma_walk_keeps(m, y.cast); x.cost.lemma_same_refl(m); x.cast_gate.lemma_same_refl(m); lemma_impacts_same_refl(x.on_cast_start@, m); lemma_impacts_same_refl(x.on_cast@, m); lemma_tags_same_refl(x.tags@, m); } else { x.cast.lemma_identity(m, y.cast); if (x.cost.remap_check(m)) is Err { x.cost.lemma_walk_keeps(m, y.cost); x.cast_gate.lemma_same_refl(m); lemma_impacts_same_refl(x.on_cast_start@, m); lemma_impacts_same_refl(x.on_cast@, m); lemma_tags_same_refl(x.tags@, m); } else { x.cost.lemma_identity(m, y.cost); if (x.cast_gate.remap_check(m)) is Err { x.cast_gate.lemma_walk_keeps(m, y.cast_gate); lemma_impacts_same_refl(x.on_cast_start@, m); lemma_impacts_same_refl(x.on_cast@, m); lemma_tags_same_refl(x.tags@, m); } else { x.cast_gate.lemma_identity(m, y.cast_gate); if (impacts_check(x.on_cast_start@, m)) is Err { lemma_impacts_walk_keeps(x.on_cast_start@, m, y.on_cast_start@); lemma_impacts_same_refl(x.on_cast@, m); lemma_tags_same_refl(x.tags@, m); } else { lemma_impacts_identity(x.on_cast_start@, m, y.on_cast_start@); if (impacts_check(x.on_cast@, m)) is Err { lemma_impacts_walk_keeps(x.on_cast@, m, y.on_cast@); lemma_tags_same_refl(x.tags@, m); } else { lemma_impacts_identity(x.on_cast@, m, y.on_cast@); if (tags_check(x.tags@, m)) is Err { lemma_tags_walk_keeps(x.tags@, m, y.tags@); } else { lemma_tags_identity(x.tags@, m, y.tags@);  } } } } } } } } }
    }

    proof fn lemma_same_refl(&self, m: &M) {
        let x = *self;
        x.params.lemma_same_refl(m); x.targeting.lemma_same_refl(m); x.cast.lemma_same_refl(m); x.cost.lemma_same_refl(m); x.cast_gate.lemma_same_refl(m); lemma_impacts_same_refl(x.on_cast_start@, m); lemma_impacts_same_refl(x.on_cast@, m); lemma_tags_same_refl(x.tags@, m);
    }
}

impl<M1: IdMap, M2: IdMap> RemapPair<M1, M2> for AbilityDescriptor {
    proof fn lemma_lands(&self, m1: &M1, m2: &M2, a: Self) {
        let x = *self;
        x.params.lemma_lands(m1, m2, a.params);
        x.targeting.lemma_lands(m1, m2, a.targeting);
        x.cast.lemma_lands(m1, m2, a.cast);
        x.cost.lemma_lands(m1, m2, a.cost);
        x.cast_gate.lemma_lands(m1, m2, a.cast_gate);
        lemma_impacts_lands(x.on_cast_start@, m1, m2, a.on_cast_start@);
        lemma_impacts_lands(x.on_cast@, m1, m2, a.on_cast@);
        lemma_tags_lands(x.tags@, m1, m2, a.tags@);
    }

    proof fn lemma_fixed(&self, m1: &M1, m2: &M2, a: Self, b: Self) {
        let x = *self;
        x.params.lemma_fixed(m1, m2, a.params, b.params);
        x.targeting.lemma_fixed(m1, m2, a.targeting, b.targeting);
        x.cast.lemma_fixed(m1, m2, a.cast, b.cast);
        x.cost.lemma_fixed(m1, m2, a.cost, b.cost);
        x.cast_gate.lemma_fixed(m1, m2, a.cast_gate, b.cast_gate);
        lemma_impacts_fixed(x.on_cast_start@, m1, m2, a.on_cast_start@, b.on_cast_start@);
        lemma_impacts_fixed(x.on_cast@, m1, m2, a.on_cast@, b.on_cast@);
        lemma_tags_fixed(x.tags@, m1, m2, a.tags@, b.tags@);
    }
}

impl<M1: IdMap, M2: IdMap, M12: IdMap> RemapCompose<M1, M2, M12> for AbilityDescriptor {
    proof fn lemma_compose(&self, m1: &M1, m2: &M2, m12: &M12, a: Self, b: Self) {
        let x = *self;
        x.params.lemma_compose(m1, m2, m12, a.params, b.params);
        x.targeting.lemma_compose(m1, m2, m12, a.targeting, b.targeting);
        x.cast.lemma_compose(m1, m2, m12, a.cast, b.cast);
        x.cost.lemma_compose(m1, m2, m12, a.cost, b.cost);
        x.cast_gate.lemma_compose(m1, m2, m12, a.cast_gate, b.cast_gate);
        lemma_impacts_compose(x.on_cast_start@, m1, m2, m12, a.on_cast_start@, b.on_cast_start@);
        lemma_impacts_compose(x.on_cast@, m1, m2, m12, a.on_cast@, b.on_cast@);
        lemma_tags_compose(x.tags@, m1, m2, m12, a.tags@, b.tags@);
    }
}

impl Contents for AbilitySelector {
    open spec fn same_as(&self, other: Self) -> bool {
        let x = *self;
        let y = other;
        match (x, y) {
            (AbilitySelector::Slot(x_0), AbilitySelector::Slot(y_0)) => x_0 == y_0,
            (AbilitySelector::Tag(x_0), AbilitySelector::Tag(y_0)) => x_0 == y_0,
            (AbilitySelector::Ability(x_0), AbilitySelector::Ability(y_0)) => x_0 == y_0,
            (AbilitySelector::Any, AbilitySelector::Any) => true,
            (AbilitySelector::SelfUnit, AbilitySelector::SelfUnit) => true,
            _ => false,
        }
    }
}

impl<M: IdMap> RemapIds<M> for AbilitySelector {
    open spec fn remap_check(&self, m: &M) -> Result<(), M::Error> {
        let x = *self;
        match x {
            AbilitySelector::Slot(x_0) => Ok(()),
            AbilitySelector::Tag(x_0) => then(leaf(m.tag_spec(x_0)), Ok(())),
            AbilitySelector::Ability(x_0) => then(leaf(m.ability_spec(x_0)), Ok(())),
            AbilitySelector::Any => Ok(()),
            AbilitySelector::SelfUnit => Ok(()),
        }
    }

    open spec fn remaps_to(&self, m: &M, new: Self) -> bool {
        let x = *self;
        let y = new;
        match (x, y) {
            (AbilitySelector::Slot(x_0), AbilitySelector::Slot(y_0)) => x_0 == y_0,
            (AbilitySelector::Tag(x_0), AbilitySelector::Tag(y_0)) => m.tag_spec(x_0) == Ok::<TagId, M::Error>(y_0),
            (AbilitySelector::Ability(x_0), AbilitySelector::Ability(y_0)) => m.ability_spec(x_0) == Ok::<AbilityId, M::Error>(y_0),
            (AbilitySelector::Any, AbilitySelector::Any) => true,
            (AbilitySelector::SelfUnit, AbilitySelector::SelfUnit) => true,
            _ => false,
        }
    }

    open spec fn walked_to(&self, m: &M, new: Self) -> bool {
        let x = *self;
        let y = new;
        match (x, y) {
            (AbilitySelector::Slot(x_0), AbilitySelector::Slot(y_0)) => x_0 == y_0 && true,
            (AbilitySelector::Tag(x_0), AbilitySelector::Tag(y_0)) => (if (leaf(m.tag_spec(x_0))) is Err { x_0 == y_0 } else { m.tag_spec(x_0) == Ok::<TagId, M::Error>(y_0) && true }),
            (AbilitySelector::Ability(x_0), AbilitySelector::Ability(y_0)) => (if (leaf(m.ability_spec(x_0))) is Err { x_0 == y_0 } else { m.ability_spec(x_0) == Ok::<AbilityId, M::Error>(y_0) && true }),
            (AbilitySelector::Any, AbilitySelector::Any) => true,
            (AbilitySelector::SelfUnit, AbilitySelector::SelfUnit) => true,
            _ => false,
        }
    }

    #[verifier::rlimit(60)]
    #[verifier::spinoff_prover]
    fn remap_ids(&mut self, m: &M) -> (r: Result<(), M::Error>) {
        let x = self;
        match x {
            AbilitySelector::Slot(_) => {
            },
            AbilitySelector::Tag(x_0) => {
                match m.tag(*x_0) {
                    Ok(v) => { *x_0 = v; },
                    Err(e) => { return Err(e); },
                }
            },
            AbilitySelector::Ability(x_0) => {
                match m.ability(*x_0) {
                    Ok(v) => { *x_0 = v; },
                    Err(e) => { return Err(e); },
                }
            },
            AbilitySelector::Any => {
            },
            AbilitySelector::SelfUnit => {
            },
        }
        Ok(())
    }

    proof fn lemma_total(&self, m: &M) {
        let x = *self;
        match x {
            AbilitySelector::Slot(x_0) => {  },
            AbilitySelector::Tag(x_0) => {  },
            AbilitySelector::Ability(x_0) => {  },
            AbilitySelector::Any => {  },
            AbilitySelector::SelfUnit => {  },
        }
    }

    proof fn lemma_identity(&self, m: &M, new: Self) {
        let x = *self;
        let y = new;
        match (x, y) {
            (AbilitySelector::Slot(x_0), AbilitySelector::Slot(y_0)) => {  },
            (AbilitySelector::Tag(x_0), AbilitySelector::Tag(y_0)) => {  },
            (AbilitySelector::Ability(x_0), AbilitySelector::Ability(y_0)) => {  },
            (AbilitySelector::Any, AbilitySelector::Any) => {  },
            (AbilitySelector::SelfUnit, AbilitySelector::SelfUnit) => {  },
            _ => {},
        }
    }

    proof fn lemma_stable(&self, m: &M, a: Self, b: Self) {
        let x = *self;
        match (x, a, b) {
            (AbilitySelector::Slot(x_0), AbilitySelector::Slot(a_0), AbilitySelector::Slot(b_0)) => {  },
            (AbilitySelector::Tag(x_0), AbilitySelector::Tag(a_0), AbilitySelector::Tag(b_0)) => {  },
            (AbilitySelector::Ability(x_0), AbilitySelector::Ability(a_0), AbilitySelector::Ability(b_0)) => {  },
            (AbilitySelector::Any, AbilitySelector::Any, AbilitySelector::Any) => {  },
            (AbilitySelector::SelfUnit, AbilitySelector::SelfUnit, AbilitySelector::SelfUnit) => {  },
            _ => {},
        }
    }

    #[verifier::rlimit(60)]
    #[verifier::spinoff_prover]
    proof fn lemma_walk_keeps(&self, m: &M, new: Self) {
        let x = *self;
        let y = new;
        match (x, y) {
            (AbilitySelector::Slot(x_0), AbilitySelector::Slot(y_0)) => {  },
            (AbilitySelector::Tag(x_0), AbilitySelector::Tag(y_0)) => { if (leaf(m.tag_spec(x_0))) is Err {  } else {   } },
            (AbilitySelector::Ability(x_0), AbilitySelector::Ability(y_0)) => { if (leaf(m.ability_spec(x_0))) is Err {  } else {   } },
            (AbilitySelector::Any, AbilitySelector::Any) => {  },
            (AbilitySelector::SelfUnit, AbilitySelector::SelfUnit) => {  },
            _ => {},
        }
    }

    proof fn lemma_same_refl(&self, m: &M) {
        let x = *self;
        match x {
            AbilitySelector::Slot(x_0) => {  },
            AbilitySelector::Tag(x_0) => {  },
            AbilitySelector::Ability(x_0) => {  },
            AbilitySelector::Any => {  },
            AbilitySelector::SelfUnit => {  },
        }
    }
}

impl<M1: IdMap, M2: IdMap> RemapPair<M1, M2> for AbilitySelector {
    proof fn lemma_lands(&self, m1: &M1, m2: &M2, a: Self) {
        let x = *self;
        match (x, a) {
            (AbilitySelector::Slot(x_0), AbilitySelector::Slot(a_0)) => {  },
            (AbilitySelector::Tag(x_0), AbilitySelector::Tag(a_0)) => {  },
            (AbilitySelector::Ability(x_0), AbilitySelector::Ability(a_0)) => {  },
            (AbilitySelector::Any, AbilitySelector::Any) => {  },
            (AbilitySelector::SelfUnit, AbilitySelector::SelfUnit) => {  },
            _ => {},
        }
    }

    proof fn lemma_fixed(&self, m1: &M1, m2: &M2, a: Self, b: Self) {
        let x = *self;
        match (x, a, b) {
            (AbilitySelector::Slot(x_0), AbilitySelector::Slot(a_0), AbilitySelector::Slot(b_0)) => {  },
            (AbilitySelector::Tag(x_0), AbilitySelector::Tag(a_0), AbilitySelector::Tag(b_0)) => {  },
            (AbilitySelector::Ability(x_0), AbilitySelector::Ability(a_0), AbilitySelector::Ability(b_0)) => {  },
            (AbilitySelector::Any, AbilitySelector::Any, AbilitySelector::Any) => {  },
            (AbilitySelector::SelfUnit, AbilitySelector::SelfUnit, AbilitySelector::SelfUnit) => {  },
            _ => {},
        }
    }
}

impl<M1: IdMap, M2: IdMap, M12: IdMap> RemapCompose<M1, M2, M12> for AbilitySelector {
    proof fn lemma_compose(&self, m1: &M1, m2: &M2, m12: &M12, a: Self, b: Self) {
        let x = *self;
        match (x, a, b) {
            (AbilitySelector::Slot(x_0), AbilitySelector::Slot(a_0), AbilitySelector::Slot(b_0)) => {  },
            (AbilitySelector::Tag(x_0), AbilitySelector::Tag(a_0), AbilitySelector::Tag(b_0)) => {  },
            (AbilitySelector::Ability(x_0), AbilitySelector::Ability(a_0), AbilitySelector::Ability(b_0)) => {  },
            (AbilitySelector::Any, AbilitySelector::Any, AbilitySelector::Any) => {  },
            (AbilitySelector::SelfUnit, AbilitySelector::SelfUnit, AbilitySelector::SelfUnit) => {  },
            _ => {},
        }
    }
}

impl Contents for ParamPatch {
    open spec fn same_as(&self, other: Self) -> bool {
        let x = *self;
        let y = other;
        x.param == y.param
                && x.op == y.op
                && x.value.same_as(y.value)
                && x.selector.same_as(y.selector)
    }
}

impl<M: IdMap> RemapIds<M> for ParamPatch {
    open spec fn remap_check(&self, m: &M) -> Result<(), M::Error> {
        let x = *self;
        then(leaf(m.param_spec(x.param)), then(x.value.remap_check(m), x.selector.remap_check(m)))
    }

    open spec fn remaps_to(&self, m: &M, new: Self) -> bool {
        let x = *self;
        let y = new;
        m.param_spec(x.param) == Ok::<ParamId, M::Error>(y.param)
                && x.op == y.op
                && x.value.remaps_to(m, y.value)
                && x.selector.remaps_to(m, y.selector)
    }

    open spec fn walked_to(&self, m: &M, new: Self) -> bool {
        let x = *self;
        let y = new;
        x.op == y.op && (if (leaf(m.param_spec(x.param))) is Err { x.param == y.param && x.value == y.value && x.selector == y.selector } else { m.param_spec(x.param) == Ok::<ParamId, M::Error>(y.param) && (if (x.value.remap_check(m)) is Err { x.value.walked_to(m, y.value) && x.selector == y.selector } else { x.value.remaps_to(m, y.value) && (if (x.selector.remap_check(m)) is Err { x.selector.walked_to(m, y.selector) } else { x.selector.remaps_to(m, y.selector) && true }) }) })
    }

    #[verifier::rlimit(60)]
    #[verifier::spinoff_prover]
    fn remap_ids(&mut self, m: &M) -> (r: Result<(), M::Error>) {
        let x = self;
        match m.param(x.param) {
            Ok(v) => { x.param = v; },
            Err(e) => { return Err(e); },
        }
        let r = x.value.remap_ids(m);
        if r.is_err() {
            return r;
        }
        let r = x.selector.remap_ids(m);
        if r.is_err() {
            return r;
        }
        Ok(())
    }

    proof fn lemma_total(&self, m: &M) {
        let x = *self;
        x.value.lemma_total(m);
        x.selector.lemma_total(m);
    }

    proof fn lemma_identity(&self, m: &M, new: Self) {
        let x = *self;
        let y = new;
        x.value.lemma_identity(m, y.value);
        x.selector.lemma_identity(m, y.selector);
    }

    proof fn lemma_stable(&self, m: &M, a: Self, b: Self) {
        let x = *self;
        x.value.lemma_stable(m, a.value, b.value);
        x.selector.lemma_stable(m, a.selector, b.selector);
    }

    #[verifier::rlimit(60)]
    #[verifier::spinoff_prover]
    proof fn lemma_walk_keeps(&self, m: &M, new: Self) {
        let x = *self;
        let y = new;
        if (leaf(m.param_spec(x.param))) is Err { x.value.lemma_same_refl(m); x.selector.lemma_same_refl(m); } else {  if (x.value.remap_check(m)) is Err { x.value.lemma_walk_keeps(m, y.value); x.selector.lemma_same_refl(m); } else { x.value.lemma_identity(m, y.value); if (x.selector.remap_check(m)) is Err { x.selector.lemma_walk_keeps(m, y.selector); } else { x.selector.lemma_identity(m, y.selector);  } } }
    }

    proof fn lemma_same_refl(&self, m: &M) {
        let x = *self;
        x.value.lemma_same_refl(m); x.selector.lemma_same_refl(m);
    }
}

impl<M1: IdMap, M2: IdMap> RemapPair<M1, M2> for ParamPatch {
    proof fn lemma_lands(&self, m1: &M1, m2: &M2, a: Self) {
        let x = *self;
        x.value.lemma_lands(m1, m2, a.value);
        x.selector.lemma_lands(m1, m2, a.selector);
    }

    proof fn lemma_fixed(&self, m1: &M1, m2: &M2, a: Self, b: Self) {
        let x = *self;
        x.value.lemma_fixed(m1, m2, a.value, b.value);
        x.selector.lemma_fixed(m1, m2, a.selector, b.selector);
    }
}

impl<M1: IdMap, M2: IdMap, M12: IdMap> RemapCompose<M1, M2, M12> for ParamPatch {
    proof fn lemma_compose(&self, m1: &M1, m2: &M2, m12: &M12, a: Self, b: Self) {
        let x = *self;
        x.value.lemma_compose(m1, m2, m12, a.value, b.value);
        x.selector.lemma_compose(m1, m2, m12, a.selector, b.selector);
    }
}

impl Contents for Rider {
    open spec fn same_as(&self, other: Self) -> bool {
        let x = *self;
        let y = other;
        x.hook == y.hook
                && impacts_same(x.effects@, y.effects@)
                && x.selector.same_as(y.selector)
    }
}

impl<M: IdMap> RemapIds<M> for Rider {
    open spec fn remap_check(&self, m: &M) -> Result<(), M::Error> {
        let x = *self;
        then(impacts_check(x.effects@, m), x.selector.remap_check(m))
    }

    open spec fn remaps_to(&self, m: &M, new: Self) -> bool {
        let x = *self;
        let y = new;
        x.hook == y.hook
                && impacts_remaps(x.effects@, m, y.effects@)
                && x.selector.remaps_to(m, y.selector)
    }

    open spec fn walked_to(&self, m: &M, new: Self) -> bool {
        let x = *self;
        let y = new;
        x.hook == y.hook && (if (impacts_check(x.effects@, m)) is Err { impacts_walked(x.effects@, m, y.effects@) && x.selector == y.selector } else { impacts_remaps(x.effects@, m, y.effects@) && (if (x.selector.remap_check(m)) is Err { x.selector.walked_to(m, y.selector) } else { x.selector.remaps_to(m, y.selector) && true }) })
    }

    #[verifier::rlimit(60)]
    #[verifier::spinoff_prover]
    fn remap_ids(&mut self, m: &M) -> (r: Result<(), M::Error>) {
        let x = self;
        let r = remap_impacts(&mut x.effects, m);
        if r.is_err() {
            return r;
        }
        let r = x.selector.remap_ids(m);
        if r.is_err() {
            return r;
        }
        Ok(())
    }

    proof fn lemma_total(&self, m: &M) {
        let x = *self;
        lemma_impacts_total(x.effects@, m);
        x.selector.lemma_total(m);
    }

    proof fn lemma_identity(&self, m: &M, new: Self) {
        let x = *self;
        let y = new;
        lemma_impacts_identity(x.effects@, m, y.effects@);
        x.selector.lemma_identity(m, y.selector);
    }

    proof fn lemma_stable(&self, m: &M, a: Self, b: Self) {
        let x = *self;
        lemma_impacts_stable(x.effects@, m, a.effects@, b.effects@);
        x.selector.lemma_stable(m, a.selector, b.selector);
    }

    #[verifier::rlimit(60)]
    #[verifier::spinoff_prover]
    proof fn lemma_walk_keeps(&self, m: &M, new: Self) {
        let x = *self;
        let y = new;
        if (impacts_check(x.effects@, m)) is Err { lemma_impacts_walk_keeps(x.effects@, m, y.effects@); x.selector.lemma_same_refl(m); } else { lemma_impacts_identity(x.effects@, m, y.effects@); if (x.selector.remap_check(m)) is Err { x.selector.lemma_walk_keeps(m, y.selector); } else { x.selector.lemma_identity(m, y.selector);  } }
    }

    proof fn lemma_same_refl(&self, m: &M) {
        let x = *self;
        lemma_impacts_same_refl(x.effects@, m); x.selector.lemma_same_refl(m);
    }
}

impl<M1: IdMap, M2: IdMap> RemapPair<M1, M2> for Rider {
    proof fn lemma_lands(&self, m1: &M1, m2: &M2, a: Self) {
        let x = *self;
        lemma_impacts_lands(x.effects@, m1, m2, a.effects@);
        x.selector.lemma_lands(m1, m2, a.selector);
    }

    proof fn lemma_fixed(&self, m1: &M1, m2: &M2, a: Self, b: Self) {
        let x = *self;
        lemma_impacts_fixed(x.effects@, m1, m2, a.effects@, b.effects@);
        x.selector.lemma_fixed(m1, m2, a.selector, b.selector);
    }
}

impl<M1: IdMap, M2: IdMap, M12: IdMap> RemapCompose<M1, M2, M12> for Rider {
    proof fn lemma_compose(&self, m1: &M1, m2: &M2, m12: &M12, a: Self, b: Self) {
        let x = *self;
        lemma_impacts_compose(x.effects@, m1, m2, m12, a.effects@, b.effects@);
        x.selector.lemma_compose(m1, m2, m12, a.selector, b.selector);
    }
}

impl Contents for GrantAbility {
    open spec fn same_as(&self, other: Self) -> bool {
        let x = *self;
        let y = other;
        x.ability == y.ability
                && x.into == y.into
    }
}

impl<M: IdMap> RemapIds<M> for GrantAbility {
    open spec fn remap_check(&self, m: &M) -> Result<(), M::Error> {
        let x = *self;
        then(leaf(m.ability_spec(x.ability)), Ok(()))
    }

    open spec fn remaps_to(&self, m: &M, new: Self) -> bool {
        let x = *self;
        let y = new;
        m.ability_spec(x.ability) == Ok::<AbilityId, M::Error>(y.ability)
                && x.into == y.into
    }

    open spec fn walked_to(&self, m: &M, new: Self) -> bool {
        let x = *self;
        let y = new;
        x.into == y.into && (if (leaf(m.ability_spec(x.ability))) is Err { x.ability == y.ability } else { m.ability_spec(x.ability) == Ok::<AbilityId, M::Error>(y.ability) && true })
    }

    #[verifier::rlimit(60)]
    #[verifier::spinoff_prover]
    fn remap_ids(&mut self, m: &M) -> (r: Result<(), M::Error>) {
        let x = self;
        match m.ability(x.ability) {
            Ok(v) => { x.ability = v; },
            Err(e) => { return Err(e); },
        }
        Ok(())
    }

    proof fn lemma_total(&self, m: &M) {
        let x = *self;

    }

    proof fn lemma_identity(&self, m: &M, new: Self) {
        let x = *self;
        let y = new;

    }

    proof fn lemma_stable(&self, m: &M, a: Self, b: Self) {
        let x = *self;

    }

    #[verifier::rlimit(60)]
    #[verifier::spinoff_prover]
    proof fn lemma_walk_keeps(&self, m: &M, new: Self) {
        let x = *self;
        let y = new;
        if (leaf(m.ability_spec(x.ability))) is Err {  } else {   }
    }

    proof fn lemma_same_refl(&self, m: &M) {
        let x = *self;

    }
}

impl<M1: IdMap, M2: IdMap> RemapPair<M1, M2> for GrantAbility {
    proof fn lemma_lands(&self, m1: &M1, m2: &M2, a: Self) {
        let x = *self;

    }

    proof fn lemma_fixed(&self, m1: &M1, m2: &M2, a: Self, b: Self) {
        let x = *self;

    }
}

impl<M1: IdMap, M2: IdMap, M12: IdMap> RemapCompose<M1, M2, M12> for GrantAbility {
    proof fn lemma_compose(&self, m1: &M1, m2: &M2, m12: &M12, a: Self, b: Self) {
        let x = *self;

    }
}

impl Contents for QuestStage {
    open spec fn same_as(&self, other: Self) -> bool {
        let x = *self;
        let y = other;
        x.threshold == y.threshold
                && impacts_same(x.reward@, y.reward@)
    }
}

impl<M: IdMap> RemapIds<M> for QuestStage {
    open spec fn remap_check(&self, m: &M) -> Result<(), M::Error> {
        let x = *self;
        then(impacts_check(x.reward@, m), Ok(()))
    }

    open spec fn remaps_to(&self, m: &M, new: Self) -> bool {
        let x = *self;
        let y = new;
        x.threshold == y.threshold
                && impacts_remaps(x.reward@, m, y.reward@)
    }

    open spec fn walked_to(&self, m: &M, new: Self) -> bool {
        let x = *self;
        let y = new;
        x.threshold == y.threshold && (if (impacts_check(x.reward@, m)) is Err { impacts_walked(x.reward@, m, y.reward@) } else { impacts_remaps(x.reward@, m, y.reward@) && true })
    }

    #[verifier::rlimit(60)]
    #[verifier::spinoff_prover]
    fn remap_ids(&mut self, m: &M) -> (r: Result<(), M::Error>) {
        let x = self;
        let r = remap_impacts(&mut x.reward, m);
        if r.is_err() {
            return r;
        }
        Ok(())
    }

    proof fn lemma_total(&self, m: &M) {
        let x = *self;
        lemma_impacts_total(x.reward@, m);
    }

    proof fn lemma_identity(&self, m: &M, new: Self) {
        let x = *self;
        let y = new;
        lemma_impacts_identity(x.reward@, m, y.reward@);
    }

    proof fn lemma_stable(&self, m: &M, a: Self, b: Self) {
        let x = *self;
        lemma_impacts_stable(x.reward@, m, a.reward@, b.reward@);
    }

    #[verifier::rlimit(60)]
    #[verifier::spinoff_prover]
    proof fn lemma_walk_keeps(&self, m: &M, new: Self) {
        let x = *self;
        let y = new;
        if (impacts_check(x.reward@, m)) is Err { lemma_impacts_walk_keeps(x.reward@, m, y.reward@); } else { lemma_impacts_identity(x.reward@, m, y.reward@);  }
    }

    proof fn lemma_same_refl(&self, m: &M) {
        let x = *self;
        lemma_impacts_same_refl(x.reward@, m);
    }
}

impl<M1: IdMap, M2: IdMap> RemapPair<M1, M2> for QuestStage {
    proof fn lemma_lands(&self, m1: &M1, m2: &M2, a: Self) {
        let x = *self;
        lemma_impacts_lands(x.reward@, m1, m2, a.reward@);
    }

    proof fn lemma_fixed(&self, m1: &M1, m2: &M2, a: Self, b: Self) {
        let x = *self;
        lemma_impacts_fixed(x.reward@, m1, m2, a.reward@, b.reward@);
    }
}

impl<M1: IdMap, M2: IdMap, M12: IdMap> RemapCompose<M1, M2, M12> for QuestStage {
    proof fn lemma_compose(&self, m1: &M1, m2: &M2, m12: &M12, a: Self, b: Self) {
        let x = *self;
        lemma_impacts_compose(x.reward@, m1, m2, m12, a.reward@, b.reward@);
    }
}

impl Contents for QuestPayout {
    open spec fn same_as(&self, other: Self) -> bool {
        let x = *self;
        let y = other;
        match (x, y) {
            (QuestPayout::Stages(x_0), QuestPayout::Stages(y_0)) => x_0.same_as(y_0),
            _ => false,
        }
    }
}

impl<M: IdMap> RemapIds<M> for QuestPayout {
    open spec fn remap_check(&self, m: &M) -> Result<(), M::Error> {
        let x = *self;
        match x {
            QuestPayout::Stages(x_0) => then(x_0.remap_check(m), Ok(())),
        }
    }

    open spec fn remaps_to(&self, m: &M, new: Self) -> bool {
        let x = *self;
        let y = new;
        match (x, y) {
            (QuestPayout::Stages(x_0), QuestPayout::Stages(y_0)) => x_0.remaps_to(m, y_0),
            _ => false,
        }
    }

    open spec fn walked_to(&self, m: &M, new: Self) -> bool {
        let x = *self;
        let y = new;
        match (x, y) {
            (QuestPayout::Stages(x_0), QuestPayout::Stages(y_0)) => (if (x_0.remap_check(m)) is Err { x_0.walked_to(m, y_0) } else { x_0.remaps_to(m, y_0) && true }),
            _ => false,
        }
    }

    #[verifier::rlimit(60)]
    #[verifier::spinoff_prover]
    fn remap_ids(&mut self, m: &M) -> (r: Result<(), M::Error>) {
        let x = self;
        match x {
            QuestPayout::Stages(x_0) => {
                let r = x_0.remap_ids(m);
                if r.is_err() {
                    return r;
                }
            },
        }
        Ok(())
    }

    proof fn lemma_total(&self, m: &M) {
        let x = *self;
        match x {
            QuestPayout::Stages(x_0) => { x_0.lemma_total(m); },
        }
    }

    proof fn lemma_identity(&self, m: &M, new: Self) {
        let x = *self;
        let y = new;
        match (x, y) {
            (QuestPayout::Stages(x_0), QuestPayout::Stages(y_0)) => { x_0.lemma_identity(m, y_0); },
            _ => {},
        }
    }

    proof fn lemma_stable(&self, m: &M, a: Self, b: Self) {
        let x = *self;
        match (x, a, b) {
            (QuestPayout::Stages(x_0), QuestPayout::Stages(a_0), QuestPayout::Stages(b_0)) => { x_0.lemma_stable(m, a_0, b_0); },
            _ => {},
        }
    }

    #[verifier::rlimit(60)]
    #[verifier::spinoff_prover]
    proof fn lemma_walk_keeps(&self, m: &M, new: Self) {
        let x = *self;
        let y = new;
        match (x, y) {
            (QuestPayout::Stages(x_0), QuestPayout::Stages(y_0)) => { if (x_0.remap_check(m)) is Err { x_0.lemma_walk_keeps(m, y_0); } else { x_0.lemma_identity(m, y_0);  } },
            _ => {},
        }
    }

    proof fn lemma_same_refl(&self, m: &M) {
        let x = *self;
        match x {
            QuestPayout::Stages(x_0) => { x_0.lemma_same_refl(m); },
        }
    }
}

impl<M1: IdMap, M2: IdMap> RemapPair<M1, M2> for QuestPayout {
    proof fn lemma_lands(&self, m1: &M1, m2: &M2, a: Self) {
        let x = *self;
        match (x, a) {
            (QuestPayout::Stages(x_0), QuestPayout::Stages(a_0)) => { x_0.lemma_lands(m1, m2, a_0); },
            _ => {},
        }
    }

    proof fn lemma_fixed(&self, m1: &M1, m2: &M2, a: Self, b: Self) {
        let x = *self;
        match (x, a, b) {
            (QuestPayout::Stages(x_0), QuestPayout::Stages(a_0), QuestPayout::Stages(b_0)) => { x_0.lemma_fixed(m1, m2, a_0, b_0); },
            _ => {},
        }
    }
}

impl<M1: IdMap, M2: IdMap, M12: IdMap> RemapCompose<M1, M2, M12> for QuestPayout {
    proof fn lemma_compose(&self, m1: &M1, m2: &M2, m12: &M12, a: Self, b: Self) {
        let x = *self;
        match (x, a, b) {
            (QuestPayout::Stages(x_0), QuestPayout::Stages(a_0), QuestPayout::Stages(b_0)) => { x_0.lemma_compose(m1, m2, m12, a_0, b_0); },
            _ => {},
        }
    }
}

impl Contents for QuestSpec {
    open spec fn same_as(&self, other: Self) -> bool {
        let x = *self;
        let y = other;
        x.counter == y.counter
                && x.payout.same_as(y.payout)
    }
}

impl<M: IdMap> RemapIds<M> for QuestSpec {
    open spec fn remap_check(&self, m: &M) -> Result<(), M::Error> {
        let x = *self;
        then(leaf(m.stack_spec(x.counter)), x.payout.remap_check(m))
    }

    open spec fn remaps_to(&self, m: &M, new: Self) -> bool {
        let x = *self;
        let y = new;
        m.stack_spec(x.counter) == Ok::<StackId, M::Error>(y.counter)
                && x.payout.remaps_to(m, y.payout)
    }

    open spec fn walked_to(&self, m: &M, new: Self) -> bool {
        let x = *self;
        let y = new;
        (if (leaf(m.stack_spec(x.counter))) is Err { x.counter == y.counter && x.payout == y.payout } else { m.stack_spec(x.counter) == Ok::<StackId, M::Error>(y.counter) && (if (x.payout.remap_check(m)) is Err { x.payout.walked_to(m, y.payout) } else { x.payout.remaps_to(m, y.payout) && true }) })
    }

    #[verifier::rlimit(60)]
    #[verifier::spinoff_prover]
    fn remap_ids(&mut self, m: &M) -> (r: Result<(), M::Error>) {
        let x = self;
        match m.stack(x.counter) {
            Ok(v) => { x.counter = v; },
            Err(e) => { return Err(e); },
        }
        let r = x.payout.remap_ids(m);
        if r.is_err() {
            return r;
        }
        Ok(())
    }

    proof fn lemma_total(&self, m: &M) {
        let x = *self;
        x.payout.lemma_total(m);
    }

    proof fn lemma_identity(&self, m: &M, new: Self) {
        let x = *self;
        let y = new;
        x.payout.lemma_identity(m, y.payout);
    }

    proof fn lemma_stable(&self, m: &M, a: Self, b: Self) {
        let x = *self;
        x.payout.lemma_stable(m, a.payout, b.payout);
    }

    #[verifier::rlimit(60)]
    #[verifier::spinoff_prover]
    proof fn lemma_walk_keeps(&self, m: &M, new: Self) {
        let x = *self;
        let y = new;
        if (leaf(m.stack_spec(x.counter))) is Err { x.payout.lemma_same_refl(m); } else {  if (x.payout.remap_check(m)) is Err { x.payout.lemma_walk_keeps(m, y.payout); } else { x.payout.lemma_identity(m, y.payout);  } }
    }

    proof fn lemma_same_refl(&self, m: &M) {
        let x = *self;
        x.payout.lemma_same_refl(m);
    }
}

impl<M1: IdMap, M2: IdMap> RemapPair<M1, M2> for QuestSpec {
    proof fn lemma_lands(&self, m1: &M1, m2: &M2, a: Self) {
        let x = *self;
        x.payout.lemma_lands(m1, m2, a.payout);
    }

    proof fn lemma_fixed(&self, m1: &M1, m2: &M2, a: Self, b: Self) {
        let x = *self;
        x.payout.lemma_fixed(m1, m2, a.payout, b.payout);
    }
}

impl<M1: IdMap, M2: IdMap, M12: IdMap> RemapCompose<M1, M2, M12> for QuestSpec {
    proof fn lemma_compose(&self, m1: &M1, m2: &M2, m12: &M12, a: Self, b: Self) {
        let x = *self;
        x.payout.lemma_compose(m1, m2, m12, a.payout, b.payout);
    }
}

impl Contents for TalentDescriptor {
    open spec fn same_as(&self, other: Self) -> bool {
        let x = *self;
        let y = other;
        x.id == y.id
                && x.selector.same_as(y.selector)
                && x.patches.same_as(y.patches)
                && x.riders.same_as(y.riders)
                && x.add_reactions.same_as(y.add_reactions)
                && x.grants.same_as(y.grants)
                && x.modifiers.same_as(y.modifiers)
                && tags_same(x.tags@, y.tags@)
                && x.quest.same_as(y.quest)
    }
}

impl<M: IdMap> RemapIds<M> for TalentDescriptor {
    open spec fn remap_check(&self, m: &M) -> Result<(), M::Error> {
        let x = *self;
        then(leaf(m.talent_spec(x.id)), then(x.selector.remap_check(m), then(x.patches.remap_check(m), then(x.riders.remap_check(m), then(x.add_reactions.remap_check(m), then(x.grants.remap_check(m), then(x.modifiers.remap_check(m), then(tags_check(x.tags@, m), x.quest.remap_check(m)))))))))
    }

    open spec fn remaps_to(&self, m: &M, new: Self) -> bool {
        let x = *self;
        let y = new;
        m.talent_spec(x.id) == Ok::<TalentId, M::Error>(y.id)
                && x.selector.remaps_to(m, y.selector)
                && x.patches.remaps_to(m, y.patches)
                && x.riders.remaps_to(m, y.riders)
                && x.add_reactions.remaps_to(m, y.add_reactions)
                && x.grants.remaps_to(m, y.grants)
                && x.modifiers.remaps_to(m, y.modifiers)
                && tags_remaps(x.tags@, m, y.tags@)
                && x.quest.remaps_to(m, y.quest)
    }

    open spec fn walked_to(&self, m: &M, new: Self) -> bool {
        let x = *self;
        let y = new;
        (if (leaf(m.talent_spec(x.id))) is Err { x.id == y.id && x.selector == y.selector && x.patches == y.patches && x.riders == y.riders && x.add_reactions == y.add_reactions && x.grants == y.grants && x.modifiers == y.modifiers && x.tags == y.tags && x.quest == y.quest } else { m.talent_spec(x.id) == Ok::<TalentId, M::Error>(y.id) && (if (x.selector.remap_check(m)) is Err { x.selector.walked_to(m, y.selector) && x.patches == y.patches && x.riders == y.riders && x.add_reactions == y.add_reactions && x.grants == y.grants && x.modifiers == y.modifiers && x.tags == y.tags && x.quest == y.quest } else { x.selector.remaps_to(m, y.selector) && (if (x.patches.remap_check(m)) is Err { x.patches.walked_to(m, y.patches) && x.riders == y.riders && x.add_reactions == y.add_reactions && x.grants == y.grants && x.modifiers == y.modifiers && x.tags == y.tags && x.quest == y.quest } else { x.patches.remaps_to(m, y.patches) && (if (x.riders.remap_check(m)) is Err { x.riders.walked_to(m, y.riders) && x.add_reactions == y.add_reactions && x.grants == y.grants && x.modifiers == y.modifiers && x.tags == y.tags && x.quest == y.quest } else { x.riders.remaps_to(m, y.riders) && (if (x.add_reactions.remap_check(m)) is Err { x.add_reactions.walked_to(m, y.add_reactions) && x.grants == y.grants && x.modifiers == y.modifiers && x.tags == y.tags && x.quest == y.quest } else { x.add_reactions.remaps_to(m, y.add_reactions) && (if (x.grants.remap_check(m)) is Err { x.grants.walked_to(m, y.grants) && x.modifiers == y.modifiers && x.tags == y.tags && x.quest == y.quest } else { x.grants.remaps_to(m, y.grants) && (if (x.modifiers.remap_check(m)) is Err { x.modifiers.walked_to(m, y.modifiers) && x.tags == y.tags && x.quest == y.quest } else { x.modifiers.remaps_to(m, y.modifiers) && (if (tags_check(x.tags@, m)) is Err { tags_walked(x.tags@, m, y.tags@) && x.quest == y.quest } else { tags_remaps(x.tags@, m, y.tags@) && (if (x.quest.remap_check(m)) is Err { x.quest.walked_to(m, y.quest) } else { x.quest.remaps_to(m, y.quest) && true }) }) }) }) }) }) }) }) })
    }

    #[verifier::rlimit(60)]
    #[verifier::spinoff_prover]
    fn remap_ids(&mut self, m: &M) -> (r: Result<(), M::Error>) {
        let x = self;
        match m.talent(x.id) {
            Ok(v) => { x.id = v; },
            Err(e) => { return Err(e); },
        }
        let r = x.selector.remap_ids(m);
        if r.is_err() {
            return r;
        }
        let r = x.patches.remap_ids(m);
        if r.is_err() {
            return r;
        }
        let r = x.riders.remap_ids(m);
        if r.is_err() {
            return r;
        }
        let r = x.add_reactions.remap_ids(m);
        if r.is_err() {
            return r;
        }
        let r = x.grants.remap_ids(m);
        if r.is_err() {
            return r;
        }
        let r = x.modifiers.remap_ids(m);
        if r.is_err() {
            return r;
        }
        let r = remap_tags(&mut x.tags, m);
        if r.is_err() {
            return r;
        }
        let r = x.quest.remap_ids(m);
        if r.is_err() {
            return r;
        }
        Ok(())
    }

    proof fn lemma_total(&self, m: &M) {
        let x = *self;
        x.selector.lemma_total(m);
        x.patches.lemma_total(m);
        x.riders.lemma_total(m);
        x.add_reactions.lemma_total(m);
        x.grants.lemma_total(m);
        x.modifiers.lemma_total(m);
        lemma_tags_total(x.tags@, m);
        x.quest.lemma_total(m);
    }

    proof fn lemma_identity(&self, m: &M, new: Self) {
        let x = *self;
        let y = new;
        x.selector.lemma_identity(m, y.selector);
        x.patches.lemma_identity(m, y.patches);
        x.riders.lemma_identity(m, y.riders);
        x.add_reactions.lemma_identity(m, y.add_reactions);
        x.grants.lemma_identity(m, y.grants);
        x.modifiers.lemma_identity(m, y.modifiers);
        lemma_tags_identity(x.tags@, m, y.tags@);
        x.quest.lemma_identity(m, y.quest);
    }

    proof fn lemma_stable(&self, m: &M, a: Self, b: Self) {
        let x = *self;
        x.selector.lemma_stable(m, a.selector, b.selector);
        x.patches.lemma_stable(m, a.patches, b.patches);
        x.riders.lemma_stable(m, a.riders, b.riders);
        x.add_reactions.lemma_stable(m, a.add_reactions, b.add_reactions);
        x.grants.lemma_stable(m, a.grants, b.grants);
        x.modifiers.lemma_stable(m, a.modifiers, b.modifiers);
        lemma_tags_stable(x.tags@, m, a.tags@, b.tags@);
        x.quest.lemma_stable(m, a.quest, b.quest);
    }

    #[verifier::rlimit(60)]
    #[verifier::spinoff_prover]
    proof fn lemma_walk_keeps(&self, m: &M, new: Self) {
        let x = *self;
        let y = new;
        if (leaf(m.talent_spec(x.id))) is Err { x.selector.lemma_same_refl(m); x.patches.lemma_same_refl(m); x.riders.lemma_same_refl(m); x.add_reactions.lemma_same_refl(m); x.grants.lemma_same_refl(m); x.modifiers.lemma_same_refl(m); lemma_tags_same_refl(x.tags@, m); x.quest.lemma_same_refl(m); } else {  if (x.selector.remap_check(m)) is Err { x.selector.lemma_walk_keeps(m, y.selector); x.patches.lemma_same_refl(m); x.riders.lemma_same_refl(m); x.add_reactions.lemma_same_refl(m); x.grants.lemma_same_refl(m); x.modifiers.lemma_same_refl(m); lemma_tags_same_refl(x.tags@, m); x.quest.lemma_same_refl(m); } else { x.selector.lemma_identity(m, y.selector); if (x.patches.remap_check(m)) is Err { x.patches.lemma_walk_keeps(m, y.patches); x.riders.lemma_same_refl(m); x.add_reactions.lemma_same_refl(m); x.grants.lemma_same_refl(m); x.modifiers.lemma_same_refl(m); lemma_tags_same_refl(x.tags@, m); x.quest.lemma_same_refl(m); } else { x.patches.lemma_identity(m, y.patches); if (x.riders.remap_check(m)) is Err { x.riders.lemma_walk_keeps(m, y.riders); x.add_reactions.lemma_same_refl(m); x.grants.lemma_same_refl(m); x.modifiers.lemma_same_refl(m); lemma_tags_same_refl(x.tags@, m); x.quest.lemma_same_refl(m); } else { x.riders.lemma_identity(m, y.riders); if (x.add_reactions.remap_check(m)) is Err { x.add_reactions.lemma_walk_keeps(m, y.add_reactions); x.grants.lemma_same_refl(m); x.modifiers.lemma_same_refl(m); lemma_tags_same_refl(x.tags@, m); x.quest.lemma_same_refl(m); } else { x.add_reactions.lemma_identity(m, y.add_reactions); if (x.grants.remap_check(m)) is Err { x.grants.lemma_walk_keeps(m, y.grants); x.modifiers.lemma_same_refl(m); lemma_tags_same_refl(x.tags@, m); x.quest.lemma_same_refl(m); } else { x.grants.lemma_identity(m, y.grants); if (x.modifiers.remap_check(m)) is Err { x.modifiers.lemma_walk_keeps(m, y.modifiers); lemma_tags_same_refl(x.tags@, m); x.quest.lemma_same_refl(m); } else { x.modifiers.lemma_identity(m, y.modifiers); if (tags_check(x.tags@, m)) is Err { lemma_tags_walk_keeps(x.tags@, m, y.tags@); x.quest.lemma_same_refl(m); } else { lemma_tags_identity(x.tags@, m, y.tags@); if (x.quest.remap_check(m)) is Err { x.quest.lemma_walk_keeps(m, y.quest); } else { x.quest.lemma_identity(m, y.quest);  } } } } } } } } }
    }

    proof fn lemma_same_refl(&self, m: &M) {
        let x = *self;
        x.selector.lemma_same_refl(m); x.patches.lemma_same_refl(m); x.riders.lemma_same_refl(m); x.add_reactions.lemma_same_refl(m); x.grants.lemma_same_refl(m); x.modifiers.lemma_same_refl(m); lemma_tags_same_refl(x.tags@, m); x.quest.lemma_same_refl(m);
    }
}

impl<M1: IdMap, M2: IdMap> RemapPair<M1, M2> for TalentDescriptor {
    proof fn lemma_lands(&self, m1: &M1, m2: &M2, a: Self) {
        let x = *self;
        x.selector.lemma_lands(m1, m2, a.selector);
        x.patches.lemma_lands(m1, m2, a.patches);
        x.riders.lemma_lands(m1, m2, a.riders);
        x.add_reactions.lemma_lands(m1, m2, a.add_reactions);
        x.grants.lemma_lands(m1, m2, a.grants);
        x.modifiers.lemma_lands(m1, m2, a.modifiers);
        lemma_tags_lands(x.tags@, m1, m2, a.tags@);
        x.quest.lemma_lands(m1, m2, a.quest);
    }

    proof fn lemma_fixed(&self, m1: &M1, m2: &M2, a: Self, b: Self) {
        let x = *self;
        x.selector.lemma_fixed(m1, m2, a.selector, b.selector);
        x.patches.lemma_fixed(m1, m2, a.patches, b.patches);
        x.riders.lemma_fixed(m1, m2, a.riders, b.riders);
        x.add_reactions.lemma_fixed(m1, m2, a.add_reactions, b.add_reactions);
        x.grants.lemma_fixed(m1, m2, a.grants, b.grants);
        x.modifiers.lemma_fixed(m1, m2, a.modifiers, b.modifiers);
        lemma_tags_fixed(x.tags@, m1, m2, a.tags@, b.tags@);
        x.quest.lemma_fixed(m1, m2, a.quest, b.quest);
    }
}

impl<M1: IdMap, M2: IdMap, M12: IdMap> RemapCompose<M1, M2, M12> for TalentDescriptor {
    proof fn lemma_compose(&self, m1: &M1, m2: &M2, m12: &M12, a: Self, b: Self) {
        let x = *self;
        x.selector.lemma_compose(m1, m2, m12, a.selector, b.selector);
        x.patches.lemma_compose(m1, m2, m12, a.patches, b.patches);
        x.riders.lemma_compose(m1, m2, m12, a.riders, b.riders);
        x.add_reactions.lemma_compose(m1, m2, m12, a.add_reactions, b.add_reactions);
        x.grants.lemma_compose(m1, m2, m12, a.grants, b.grants);
        x.modifiers.lemma_compose(m1, m2, m12, a.modifiers, b.modifiers);
        lemma_tags_compose(x.tags@, m1, m2, m12, a.tags@, b.tags@);
        x.quest.lemma_compose(m1, m2, m12, a.quest, b.quest);
    }
}

impl Contents for Registration {
    open spec fn same_as(&self, other: Self) -> bool {
        let x = *self;
        let y = other;
        x.abi == y.abi
                && x.names == y.names
                && x.abilities.same_as(y.abilities)
                && x.talents.same_as(y.talents)
                && x.buffs.same_as(y.buffs)
                && tag_class_entries_same(x.tag_classes@, y.tag_classes@)
                && x.curves == y.curves
    }
}

impl<M: IdMap> RemapIds<M> for Registration {
    open spec fn remap_check(&self, m: &M) -> Result<(), M::Error> {
        let x = *self;
        then(x.abilities.remap_check(m), then(x.talents.remap_check(m), then(x.buffs.remap_check(m), tag_class_entries_check(x.tag_classes@, m))))
    }

    open spec fn remaps_to(&self, m: &M, new: Self) -> bool {
        let x = *self;
        let y = new;
        x.abi == y.abi
                && x.names == y.names
                && x.abilities.remaps_to(m, y.abilities)
                && x.talents.remaps_to(m, y.talents)
                && x.buffs.remaps_to(m, y.buffs)
                && tag_class_entries_remaps(x.tag_classes@, m, y.tag_classes@)
                && x.curves == y.curves
    }

    open spec fn walked_to(&self, m: &M, new: Self) -> bool {
        let x = *self;
        let y = new;
        x.abi == y.abi && x.names == y.names && x.curves == y.curves && (if (x.abilities.remap_check(m)) is Err { x.abilities.walked_to(m, y.abilities) && x.talents == y.talents && x.buffs == y.buffs && x.tag_classes == y.tag_classes } else { x.abilities.remaps_to(m, y.abilities) && (if (x.talents.remap_check(m)) is Err { x.talents.walked_to(m, y.talents) && x.buffs == y.buffs && x.tag_classes == y.tag_classes } else { x.talents.remaps_to(m, y.talents) && (if (x.buffs.remap_check(m)) is Err { x.buffs.walked_to(m, y.buffs) && x.tag_classes == y.tag_classes } else { x.buffs.remaps_to(m, y.buffs) && (if (tag_class_entries_check(x.tag_classes@, m)) is Err { tag_class_entries_walked(x.tag_classes@, m, y.tag_classes@) } else { tag_class_entries_remaps(x.tag_classes@, m, y.tag_classes@) && true }) }) }) })
    }

    #[verifier::rlimit(60)]
    #[verifier::spinoff_prover]
    fn remap_ids(&mut self, m: &M) -> (r: Result<(), M::Error>) {
        let x = self;
        let r = x.abilities.remap_ids(m);
        if r.is_err() {
            return r;
        }
        let r = x.talents.remap_ids(m);
        if r.is_err() {
            return r;
        }
        let r = x.buffs.remap_ids(m);
        if r.is_err() {
            return r;
        }
        let r = remap_tag_class_entries(&mut x.tag_classes, m);
        if r.is_err() {
            return r;
        }
        Ok(())
    }

    proof fn lemma_total(&self, m: &M) {
        let x = *self;
        x.abilities.lemma_total(m);
        x.talents.lemma_total(m);
        x.buffs.lemma_total(m);
        lemma_tag_class_entries_total(x.tag_classes@, m);
    }

    proof fn lemma_identity(&self, m: &M, new: Self) {
        let x = *self;
        let y = new;
        x.abilities.lemma_identity(m, y.abilities);
        x.talents.lemma_identity(m, y.talents);
        x.buffs.lemma_identity(m, y.buffs);
        lemma_tag_class_entries_identity(x.tag_classes@, m, y.tag_classes@);
    }

    proof fn lemma_stable(&self, m: &M, a: Self, b: Self) {
        let x = *self;
        x.abilities.lemma_stable(m, a.abilities, b.abilities);
        x.talents.lemma_stable(m, a.talents, b.talents);
        x.buffs.lemma_stable(m, a.buffs, b.buffs);
        lemma_tag_class_entries_stable(x.tag_classes@, m, a.tag_classes@, b.tag_classes@);
    }

    #[verifier::rlimit(60)]
    #[verifier::spinoff_prover]
    proof fn lemma_walk_keeps(&self, m: &M, new: Self) {
        let x = *self;
        let y = new;
        if (x.abilities.remap_check(m)) is Err { x.abilities.lemma_walk_keeps(m, y.abilities); x.talents.lemma_same_refl(m); x.buffs.lemma_same_refl(m); lemma_tag_class_entries_same_refl(x.tag_classes@, m); } else { x.abilities.lemma_identity(m, y.abilities); if (x.talents.remap_check(m)) is Err { x.talents.lemma_walk_keeps(m, y.talents); x.buffs.lemma_same_refl(m); lemma_tag_class_entries_same_refl(x.tag_classes@, m); } else { x.talents.lemma_identity(m, y.talents); if (x.buffs.remap_check(m)) is Err { x.buffs.lemma_walk_keeps(m, y.buffs); lemma_tag_class_entries_same_refl(x.tag_classes@, m); } else { x.buffs.lemma_identity(m, y.buffs); if (tag_class_entries_check(x.tag_classes@, m)) is Err { lemma_tag_class_entries_walk_keeps(x.tag_classes@, m, y.tag_classes@); } else { lemma_tag_class_entries_identity(x.tag_classes@, m, y.tag_classes@);  } } } }
    }

    proof fn lemma_same_refl(&self, m: &M) {
        let x = *self;
        x.abilities.lemma_same_refl(m); x.talents.lemma_same_refl(m); x.buffs.lemma_same_refl(m); lemma_tag_class_entries_same_refl(x.tag_classes@, m);
    }
}

impl<M1: IdMap, M2: IdMap> RemapPair<M1, M2> for Registration {
    proof fn lemma_lands(&self, m1: &M1, m2: &M2, a: Self) {
        let x = *self;
        x.abilities.lemma_lands(m1, m2, a.abilities);
        x.talents.lemma_lands(m1, m2, a.talents);
        x.buffs.lemma_lands(m1, m2, a.buffs);
        lemma_tag_class_entries_lands(x.tag_classes@, m1, m2, a.tag_classes@);
    }

    proof fn lemma_fixed(&self, m1: &M1, m2: &M2, a: Self, b: Self) {
        let x = *self;
        x.abilities.lemma_fixed(m1, m2, a.abilities, b.abilities);
        x.talents.lemma_fixed(m1, m2, a.talents, b.talents);
        x.buffs.lemma_fixed(m1, m2, a.buffs, b.buffs);
        lemma_tag_class_entries_fixed(x.tag_classes@, m1, m2, a.tag_classes@, b.tag_classes@);
    }
}

impl<M1: IdMap, M2: IdMap, M12: IdMap> RemapCompose<M1, M2, M12> for Registration {
    proof fn lemma_compose(&self, m1: &M1, m2: &M2, m12: &M12, a: Self, b: Self) {
        let x = *self;
        x.abilities.lemma_compose(m1, m2, m12, a.abilities, b.abilities);
        x.talents.lemma_compose(m1, m2, m12, a.talents, b.talents);
        x.buffs.lemma_compose(m1, m2, m12, a.buffs, b.buffs);
        lemma_tag_class_entries_compose(x.tag_classes@, m1, m2, m12, a.tag_classes@, b.tag_classes@);
    }
}

impl Contents for UnitPlacement {
    open spec fn same_as(&self, other: Self) -> bool {
        let x = *self;
        let y = other;
        x.unit == y.unit
                && x.team == y.team
                && x.at == y.at
                && x.facing == y.facing
                && x.respawn == y.respawn
    }
}

impl<M: IdMap> RemapIds<M> for UnitPlacement {
    open spec fn remap_check(&self, m: &M) -> Result<(), M::Error> {
        let x = *self;
        then(leaf(m.unit_spec(x.unit)), Ok(()))
    }

    open spec fn remaps_to(&self, m: &M, new: Self) -> bool {
        let x = *self;
        let y = new;
        m.unit_spec(x.unit) == Ok::<UnitId, M::Error>(y.unit)
                && x.team == y.team
                && x.at == y.at
                && x.facing == y.facing
                && x.respawn == y.respawn
    }

    open spec fn walked_to(&self, m: &M, new: Self) -> bool {
        let x = *self;
        let y = new;
        x.team == y.team && x.at == y.at && x.facing == y.facing && x.respawn == y.respawn && (if (leaf(m.unit_spec(x.unit))) is Err { x.unit == y.unit } else { m.unit_spec(x.unit) == Ok::<UnitId, M::Error>(y.unit) && true })
    }

    #[verifier::rlimit(60)]
    #[verifier::spinoff_prover]
    fn remap_ids(&mut self, m: &M) -> (r: Result<(), M::Error>) {
        let x = self;
        match m.unit(x.unit) {
            Ok(v) => { x.unit = v; },
            Err(e) => { return Err(e); },
        }
        Ok(())
    }

    proof fn lemma_total(&self, m: &M) {
        let x = *self;

    }

    proof fn lemma_identity(&self, m: &M, new: Self) {
        let x = *self;
        let y = new;

    }

    proof fn lemma_stable(&self, m: &M, a: Self, b: Self) {
        let x = *self;

    }

    #[verifier::rlimit(60)]
    #[verifier::spinoff_prover]
    proof fn lemma_walk_keeps(&self, m: &M, new: Self) {
        let x = *self;
        let y = new;
        if (leaf(m.unit_spec(x.unit))) is Err {  } else {   }
    }

    proof fn lemma_same_refl(&self, m: &M) {
        let x = *self;

    }
}

impl<M1: IdMap, M2: IdMap> RemapPair<M1, M2> for UnitPlacement {
    proof fn lemma_lands(&self, m1: &M1, m2: &M2, a: Self) {
        let x = *self;

    }

    proof fn lemma_fixed(&self, m1: &M1, m2: &M2, a: Self, b: Self) {
        let x = *self;

    }
}

impl<M1: IdMap, M2: IdMap, M12: IdMap> RemapCompose<M1, M2, M12> for UnitPlacement {
    proof fn lemma_compose(&self, m1: &M1, m2: &M2, m12: &M12, a: Self, b: Self) {
        let x = *self;

    }
}

impl Contents for NavMeshDescriptor {
    open spec fn same_as(&self, other: Self) -> bool {
        let x = *self;
        let y = other;
        x.id == y.id
                && x.outline == y.outline
                && x.obstacles == y.obstacles
                && x.agent_radius == y.agent_radius
                && x.placements.same_as(y.placements)
    }
}

impl<M: IdMap> RemapIds<M> for NavMeshDescriptor {
    open spec fn remap_check(&self, m: &M) -> Result<(), M::Error> {
        let x = *self;
        then(leaf(m.navmesh_spec(x.id)), x.placements.remap_check(m))
    }

    open spec fn remaps_to(&self, m: &M, new: Self) -> bool {
        let x = *self;
        let y = new;
        m.navmesh_spec(x.id) == Ok::<NavMeshId, M::Error>(y.id)
                && x.outline == y.outline
                && x.obstacles == y.obstacles
                && x.agent_radius == y.agent_radius
                && x.placements.remaps_to(m, y.placements)
    }

    open spec fn walked_to(&self, m: &M, new: Self) -> bool {
        let x = *self;
        let y = new;
        x.outline == y.outline && x.obstacles == y.obstacles && x.agent_radius == y.agent_radius && (if (leaf(m.navmesh_spec(x.id))) is Err { x.id == y.id && x.placements == y.placements } else { m.navmesh_spec(x.id) == Ok::<NavMeshId, M::Error>(y.id) && (if (x.placements.remap_check(m)) is Err { x.placements.walked_to(m, y.placements) } else { x.placements.remaps_to(m, y.placements) && true }) })
    }

    #[verifier::rlimit(60)]
    #[verifier::spinoff_prover]
    fn remap_ids(&mut self, m: &M) -> (r: Result<(), M::Error>) {
        let x = self;
        match m.navmesh(x.id) {
            Ok(v) => { x.id = v; },
            Err(e) => { return Err(e); },
        }
        let r = x.placements.remap_ids(m);
        if r.is_err() {
            return r;
        }
        Ok(())
    }

    proof fn lemma_total(&self, m: &M) {
        let x = *self;
        x.placements.lemma_total(m);
    }

    proof fn lemma_identity(&self, m: &M, new: Self) {
        let x = *self;
        let y = new;
        x.placements.lemma_identity(m, y.placements);
    }

    proof fn lemma_stable(&self, m: &M, a: Self, b: Self) {
        let x = *self;
        x.placements.lemma_stable(m, a.placements, b.placements);
    }

    #[verifier::rlimit(60)]
    #[verifier::spinoff_prover]
    proof fn lemma_walk_keeps(&self, m: &M, new: Self) {
        let x = *self;
        let y = new;
        if (leaf(m.navmesh_spec(x.id))) is Err { x.placements.lemma_same_refl(m); } else {  if (x.placements.remap_check(m)) is Err { x.placements.lemma_walk_keeps(m, y.placements); } else { x.placements.lemma_identity(m, y.placements);  } }
    }

    proof fn lemma_same_refl(&self, m: &M) {
        let x = *self;
        x.placements.lemma_same_refl(m);
    }
}

impl<M1: IdMap, M2: IdMap> RemapPair<M1, M2> for NavMeshDescriptor {
    proof fn lemma_lands(&self, m1: &M1, m2: &M2, a: Self) {
        let x = *self;
        x.placements.lemma_lands(m1, m2, a.placements);
    }

    proof fn lemma_fixed(&self, m1: &M1, m2: &M2, a: Self, b: Self) {
        let x = *self;
        x.placements.lemma_fixed(m1, m2, a.placements, b.placements);
    }
}

impl<M1: IdMap, M2: IdMap, M12: IdMap> RemapCompose<M1, M2, M12> for NavMeshDescriptor {
    proof fn lemma_compose(&self, m1: &M1, m2: &M2, m12: &M12, a: Self, b: Self) {
        let x = *self;
        x.placements.lemma_compose(m1, m2, m12, a.placements, b.placements);
    }
}

impl Contents for AttackDelivery {
    open spec fn same_as(&self, other: Self) -> bool {
        let x = *self;
        let y = other;
        match (x, y) {
            (AttackDelivery::Melee, AttackDelivery::Melee) => true,
            (AttackDelivery::Ranged { body: x_body }, AttackDelivery::Ranged { body: y_body }) => body_same(x_body, y_body),
            _ => false,
        }
    }
}

impl<M: IdMap> RemapIds<M> for AttackDelivery {
    open spec fn remap_check(&self, m: &M) -> Result<(), M::Error> {
        let x = *self;
        match x {
            AttackDelivery::Melee => Ok(()),
            AttackDelivery::Ranged { body: x_body } => then(body_check(x_body, m), Ok(())),
        }
    }

    open spec fn remaps_to(&self, m: &M, new: Self) -> bool {
        let x = *self;
        let y = new;
        match (x, y) {
            (AttackDelivery::Melee, AttackDelivery::Melee) => true,
            (AttackDelivery::Ranged { body: x_body }, AttackDelivery::Ranged { body: y_body }) => body_remaps(x_body, m, y_body),
            _ => false,
        }
    }

    open spec fn walked_to(&self, m: &M, new: Self) -> bool {
        let x = *self;
        let y = new;
        match (x, y) {
            (AttackDelivery::Melee, AttackDelivery::Melee) => true,
            (AttackDelivery::Ranged { body: x_body }, AttackDelivery::Ranged { body: y_body }) => (if (body_check(x_body, m)) is Err { body_walked(x_body, m, y_body) } else { body_remaps(x_body, m, y_body) && true }),
            _ => false,
        }
    }

    #[verifier::rlimit(60)]
    #[verifier::spinoff_prover]
    fn remap_ids(&mut self, m: &M) -> (r: Result<(), M::Error>) {
        let x = self;
        match x {
            AttackDelivery::Melee => {
            },
            AttackDelivery::Ranged { body: x_body } => {
                let r = remap_body(x_body, m);
                if r.is_err() {
                    return r;
                }
            },
        }
        Ok(())
    }

    proof fn lemma_total(&self, m: &M) {
        let x = *self;
        match x {
            AttackDelivery::Melee => {  },
            AttackDelivery::Ranged { body: x_body } => { lemma_body_total(x_body, m); },
        }
    }

    proof fn lemma_identity(&self, m: &M, new: Self) {
        let x = *self;
        let y = new;
        match (x, y) {
            (AttackDelivery::Melee, AttackDelivery::Melee) => {  },
            (AttackDelivery::Ranged { body: x_body }, AttackDelivery::Ranged { body: y_body }) => { lemma_body_identity(x_body, m, y_body); },
            _ => {},
        }
    }

    proof fn lemma_stable(&self, m: &M, a: Self, b: Self) {
        let x = *self;
        match (x, a, b) {
            (AttackDelivery::Melee, AttackDelivery::Melee, AttackDelivery::Melee) => {  },
            (AttackDelivery::Ranged { body: x_body }, AttackDelivery::Ranged { body: a_body }, AttackDelivery::Ranged { body: b_body }) => { lemma_body_stable(x_body, m, a_body, b_body); },
            _ => {},
        }
    }

    #[verifier::rlimit(60)]
    #[verifier::spinoff_prover]
    proof fn lemma_walk_keeps(&self, m: &M, new: Self) {
        let x = *self;
        let y = new;
        match (x, y) {
            (AttackDelivery::Melee, AttackDelivery::Melee) => {  },
            (AttackDelivery::Ranged { body: x_body }, AttackDelivery::Ranged { body: y_body }) => { if (body_check(x_body, m)) is Err { lemma_body_walk_keeps(x_body, m, y_body); } else { lemma_body_identity(x_body, m, y_body);  } },
            _ => {},
        }
    }

    proof fn lemma_same_refl(&self, m: &M) {
        let x = *self;
        match x {
            AttackDelivery::Melee => {  },
            AttackDelivery::Ranged { body: x_body } => { lemma_body_same_refl(x_body, m); },
        }
    }
}

impl<M1: IdMap, M2: IdMap> RemapPair<M1, M2> for AttackDelivery {
    proof fn lemma_lands(&self, m1: &M1, m2: &M2, a: Self) {
        let x = *self;
        match (x, a) {
            (AttackDelivery::Melee, AttackDelivery::Melee) => {  },
            (AttackDelivery::Ranged { body: x_body }, AttackDelivery::Ranged { body: a_body }) => { lemma_body_lands(x_body, m1, m2, a_body); },
            _ => {},
        }
    }

    proof fn lemma_fixed(&self, m1: &M1, m2: &M2, a: Self, b: Self) {
        let x = *self;
        match (x, a, b) {
            (AttackDelivery::Melee, AttackDelivery::Melee, AttackDelivery::Melee) => {  },
            (AttackDelivery::Ranged { body: x_body }, AttackDelivery::Ranged { body: a_body }, AttackDelivery::Ranged { body: b_body }) => { lemma_body_fixed(x_body, m1, m2, a_body, b_body); },
            _ => {},
        }
    }
}

impl<M1: IdMap, M2: IdMap, M12: IdMap> RemapCompose<M1, M2, M12> for AttackDelivery {
    proof fn lemma_compose(&self, m1: &M1, m2: &M2, m12: &M12, a: Self, b: Self) {
        let x = *self;
        match (x, a, b) {
            (AttackDelivery::Melee, AttackDelivery::Melee, AttackDelivery::Melee) => {  },
            (AttackDelivery::Ranged { body: x_body }, AttackDelivery::Ranged { body: a_body }, AttackDelivery::Ranged { body: b_body }) => { lemma_body_compose(x_body, m1, m2, m12, a_body, b_body); },
            _ => {},
        }
    }
}

impl Contents for AttackDescriptor {
    open spec fn same_as(&self, other: Self) -> bool {
        let x = *self;
        let y = other;
        impacts_same(x.payload@, y.payload@)
                && x.filter.same_as(y.filter)
                && x.delivery.same_as(y.delivery)
                && x.windup.same_as(y.windup)
                && x.recovery.same_as(y.recovery)
                && x.period.same_as(y.period)
                && x.range.same_as(y.range)
    }
}

impl<M: IdMap> RemapIds<M> for AttackDescriptor {
    open spec fn remap_check(&self, m: &M) -> Result<(), M::Error> {
        let x = *self;
        then(impacts_check(x.payload@, m), then(x.filter.remap_check(m), then(x.delivery.remap_check(m), then(x.windup.remap_check(m), then(x.recovery.remap_check(m), then(x.period.remap_check(m), x.range.remap_check(m)))))))
    }

    open spec fn remaps_to(&self, m: &M, new: Self) -> bool {
        let x = *self;
        let y = new;
        impacts_remaps(x.payload@, m, y.payload@)
                && x.filter.remaps_to(m, y.filter)
                && x.delivery.remaps_to(m, y.delivery)
                && x.windup.remaps_to(m, y.windup)
                && x.recovery.remaps_to(m, y.recovery)
                && x.period.remaps_to(m, y.period)
                && x.range.remaps_to(m, y.range)
    }

    open spec fn walked_to(&self, m: &M, new: Self) -> bool {
        let x = *self;
        let y = new;
        (if (impacts_check(x.payload@, m)) is Err { impacts_walked(x.payload@, m, y.payload@) && x.filter == y.filter && x.delivery == y.delivery && x.windup == y.windup && x.recovery == y.recovery && x.period == y.period && x.range == y.range } else { impacts_remaps(x.payload@, m, y.payload@) && (if (x.filter.remap_check(m)) is Err { x.filter.walked_to(m, y.filter) && x.delivery == y.delivery && x.windup == y.windup && x.recovery == y.recovery && x.period == y.period && x.range == y.range } else { x.filter.remaps_to(m, y.filter) && (if (x.delivery.remap_check(m)) is Err { x.delivery.walked_to(m, y.delivery) && x.windup == y.windup && x.recovery == y.recovery && x.period == y.period && x.range == y.range } else { x.delivery.remaps_to(m, y.delivery) && (if (x.windup.remap_check(m)) is Err { x.windup.walked_to(m, y.windup) && x.recovery == y.recovery && x.period == y.period && x.range == y.range } else { x.windup.remaps_to(m, y.windup) && (if (x.recovery.remap_check(m)) is Err { x.recovery.walked_to(m, y.recovery) && x.period == y.period && x.range == y.range } else { x.recovery.remaps_to(m, y.recovery) && (if (x.period.remap_check(m)) is Err { x.period.walked_to(m, y.period) && x.range == y.range } else { x.period.remaps_to(m, y.period) && (if (x.range.remap_check(m)) is Err { x.range.walked_to(m, y.range) } else { x.range.remaps_to(m, y.range) && true }) }) }) }) }) }) })
    }

    #[verifier::rlimit(60)]
    #[verifier::spinoff_prover]
    fn remap_ids(&mut self, m: &M) -> (r: Result<(), M::Error>) {
        let x = self;
        let r = remap_impacts(&mut x.payload, m);
        if r.is_err() {
            return r;
        }
        let r = x.filter.remap_ids(m);
        if r.is_err() {
            return r;
        }
        let r = x.delivery.remap_ids(m);
        if r.is_err() {
            return r;
        }
        let r = x.windup.remap_ids(m);
        if r.is_err() {
            return r;
        }
        let r = x.recovery.remap_ids(m);
        if r.is_err() {
            return r;
        }
        let r = x.period.remap_ids(m);
        if r.is_err() {
            return r;
        }
        let r = x.range.remap_ids(m);
        if r.is_err() {
            return r;
        }
        Ok(())
    }

    proof fn lemma_total(&self, m: &M) {
        let x = *self;
        lemma_impacts_total(x.payload@, m);
        x.filter.lemma_total(m);
        x.delivery.lemma_total(m);
        x.windup.lemma_total(m);
        x.recovery.lemma_total(m);
        x.period.lemma_total(m);
        x.range.lemma_total(m);
    }

    proof fn lemma_identity(&self, m: &M, new: Self) {
        let x = *self;
        let y = new;
        lemma_impacts_identity(x.payload@, m, y.payload@);
        x.filter.lemma_identity(m, y.filter);
        x.delivery.lemma_identity(m, y.delivery);
        x.windup.lemma_identity(m, y.windup);
        x.recovery.lemma_identity(m, y.recovery);
        x.period.lemma_identity(m, y.period);
        x.range.lemma_identity(m, y.range);
    }

    proof fn lemma_stable(&self, m: &M, a: Self, b: Self) {
        let x = *self;
        lemma_impacts_stable(x.payload@, m, a.payload@, b.payload@);
        x.filter.lemma_stable(m, a.filter, b.filter);
        x.delivery.lemma_stable(m, a.delivery, b.delivery);
        x.windup.lemma_stable(m, a.windup, b.windup);
        x.recovery.lemma_stable(m, a.recovery, b.recovery);
        x.period.lemma_stable(m, a.period, b.period);
        x.range.lemma_stable(m, a.range, b.range);
    }

    #[verifier::rlimit(60)]
    #[verifier::spinoff_prover]
    proof fn lemma_walk_keeps(&self, m: &M, new: Self) {
        let x = *self;
        let y = new;
        if (impacts_check(x.payload@, m)) is Err { lemma_impacts_walk_keeps(x.payload@, m, y.payload@); x.filter.lemma_same_refl(m); x.delivery.lemma_same_refl(m); x.windup.lemma_same_refl(m); x.recovery.lemma_same_refl(m); x.period.lemma_same_refl(m); x.range.lemma_same_refl(m); } else { lemma_impacts_identity(x.payload@, m, y.payload@); if (x.filter.remap_check(m)) is Err { x.filter.lemma_walk_keeps(m, y.filter); x.delivery.lemma_same_refl(m); x.windup.lemma_same_refl(m); x.recovery.lemma_same_refl(m); x.period.lemma_same_refl(m); x.range.lemma_same_refl(m); } else { x.filter.lemma_identity(m, y.filter); if (x.delivery.remap_check(m)) is Err { x.delivery.lemma_walk_keeps(m, y.delivery); x.windup.lemma_same_refl(m); x.recovery.lemma_same_refl(m); x.period.lemma_same_refl(m); x.range.lemma_same_refl(m); } else { x.delivery.lemma_identity(m, y.delivery); if (x.windup.remap_check(m)) is Err { x.windup.lemma_walk_keeps(m, y.windup); x.recovery.lemma_same_refl(m); x.period.lemma_same_refl(m); x.range.lemma_same_refl(m); } else { x.windup.lemma_identity(m, y.windup); if (x.recovery.remap_check(m)) is Err { x.recovery.lemma_walk_keeps(m, y.recovery); x.period.lemma_same_refl(m); x.range.lemma_same_refl(m); } else { x.recovery.lemma_identity(m, y.recovery); if (x.period.remap_check(m)) is Err { x.period.lemma_walk_keeps(m, y.period); x.range.lemma_same_refl(m); } else { x.period.lemma_identity(m, y.period); if (x.range.remap_check(m)) is Err { x.range.lemma_walk_keeps(m, y.range); } else { x.range.lemma_identity(m, y.range);  } } } } } } }
    }

    proof fn lemma_same_refl(&self, m: &M) {
        let x = *self;
        lemma_impacts_same_refl(x.payload@, m); x.filter.lemma_same_refl(m); x.delivery.lemma_same_refl(m); x.windup.lemma_same_refl(m); x.recovery.lemma_same_refl(m); x.period.lemma_same_refl(m); x.range.lemma_same_refl(m);
    }
}

impl<M1: IdMap, M2: IdMap> RemapPair<M1, M2> for AttackDescriptor {
    proof fn lemma_lands(&self, m1: &M1, m2: &M2, a: Self) {
        let x = *self;
        lemma_impacts_lands(x.payload@, m1, m2, a.payload@);
        x.filter.lemma_lands(m1, m2, a.filter);
        x.delivery.lemma_lands(m1, m2, a.delivery);
        x.windup.lemma_lands(m1, m2, a.windup);
        x.recovery.lemma_lands(m1, m2, a.recovery);
        x.period.lemma_lands(m1, m2, a.period);
        x.range.lemma_lands(m1, m2, a.range);
    }

    proof fn lemma_fixed(&self, m1: &M1, m2: &M2, a: Self, b: Self) {
        let x = *self;
        lemma_impacts_fixed(x.payload@, m1, m2, a.payload@, b.payload@);
        x.filter.lemma_fixed(m1, m2, a.filter, b.filter);
        x.delivery.lemma_fixed(m1, m2, a.delivery, b.delivery);
        x.windup.lemma_fixed(m1, m2, a.windup, b.windup);
        x.recovery.lemma_fixed(m1, m2, a.recovery, b.recovery);
        x.period.lemma_fixed(m1, m2, a.period, b.period);
        x.range.lemma_fixed(m1, m2, a.range, b.range);
    }
}

impl<M1: IdMap, M2: IdMap, M12: IdMap> RemapCompose<M1, M2, M12> for AttackDescriptor {
    proof fn lemma_compose(&self, m1: &M1, m2: &M2, m12: &M12, a: Self, b: Self) {
        let x = *self;
        lemma_impacts_compose(x.payload@, m1, m2, m12, a.payload@, b.payload@);
        x.filter.lemma_compose(m1, m2, m12, a.filter, b.filter);
        x.delivery.lemma_compose(m1, m2, m12, a.delivery, b.delivery);
        x.windup.lemma_compose(m1, m2, m12, a.windup, b.windup);
        x.recovery.lemma_compose(m1, m2, m12, a.recovery, b.recovery);
        x.period.lemma_compose(m1, m2, m12, a.period, b.period);
        x.range.lemma_compose(m1, m2, m12, a.range, b.range);
    }
}

impl Contents for AnimState {
    open spec fn same_as(&self, other: Self) -> bool {
        let x = *self;
        let y = other;
        match (x, y) {
            (AnimState::Idle, AnimState::Idle) => true,
            (AnimState::Walk, AnimState::Walk) => true,
            (AnimState::Run, AnimState::Run) => true,
            (AnimState::Cast, AnimState::Cast) => true,
            (AnimState::Channel, AnimState::Channel) => true,
            (AnimState::Hit, AnimState::Hit) => true,
            (AnimState::Death, AnimState::Death) => true,
            (AnimState::Custom(x_0), AnimState::Custom(y_0)) => x_0 == y_0,
            _ => false,
        }
    }
}

impl<M: IdMap> RemapIds<M> for AnimState {
    open spec fn remap_check(&self, m: &M) -> Result<(), M::Error> {
        let x = *self;
        match x {
            AnimState::Idle => Ok(()),
            AnimState::Walk => Ok(()),
            AnimState::Run => Ok(()),
            AnimState::Cast => Ok(()),
            AnimState::Channel => Ok(()),
            AnimState::Hit => Ok(()),
            AnimState::Death => Ok(()),
            AnimState::Custom(x_0) => then(leaf(m.anim_state_spec(x_0)), Ok(())),
        }
    }

    open spec fn remaps_to(&self, m: &M, new: Self) -> bool {
        let x = *self;
        let y = new;
        match (x, y) {
            (AnimState::Idle, AnimState::Idle) => true,
            (AnimState::Walk, AnimState::Walk) => true,
            (AnimState::Run, AnimState::Run) => true,
            (AnimState::Cast, AnimState::Cast) => true,
            (AnimState::Channel, AnimState::Channel) => true,
            (AnimState::Hit, AnimState::Hit) => true,
            (AnimState::Death, AnimState::Death) => true,
            (AnimState::Custom(x_0), AnimState::Custom(y_0)) => m.anim_state_spec(x_0) == Ok::<AnimStateId, M::Error>(y_0),
            _ => false,
        }
    }

    open spec fn walked_to(&self, m: &M, new: Self) -> bool {
        let x = *self;
        let y = new;
        match (x, y) {
            (AnimState::Idle, AnimState::Idle) => true,
            (AnimState::Walk, AnimState::Walk) => true,
            (AnimState::Run, AnimState::Run) => true,
            (AnimState::Cast, AnimState::Cast) => true,
            (AnimState::Channel, AnimState::Channel) => true,
            (AnimState::Hit, AnimState::Hit) => true,
            (AnimState::Death, AnimState::Death) => true,
            (AnimState::Custom(x_0), AnimState::Custom(y_0)) => (if (leaf(m.anim_state_spec(x_0))) is Err { x_0 == y_0 } else { m.anim_state_spec(x_0) == Ok::<AnimStateId, M::Error>(y_0) && true }),
            _ => false,
        }
    }

    #[verifier::rlimit(60)]
    #[verifier::spinoff_prover]
    fn remap_ids(&mut self, m: &M) -> (r: Result<(), M::Error>) {
        let x = self;
        match x {
            AnimState::Idle => {
            },
            AnimState::Walk => {
            },
            AnimState::Run => {
            },
            AnimState::Cast => {
            },
            AnimState::Channel => {
            },
            AnimState::Hit => {
            },
            AnimState::Death => {
            },
            AnimState::Custom(x_0) => {
                match m.anim_state(*x_0) {
                    Ok(v) => { *x_0 = v; },
                    Err(e) => { return Err(e); },
                }
            },
        }
        Ok(())
    }

    proof fn lemma_total(&self, m: &M) {
        let x = *self;
        match x {
            AnimState::Idle => {  },
            AnimState::Walk => {  },
            AnimState::Run => {  },
            AnimState::Cast => {  },
            AnimState::Channel => {  },
            AnimState::Hit => {  },
            AnimState::Death => {  },
            AnimState::Custom(x_0) => {  },
        }
    }

    proof fn lemma_identity(&self, m: &M, new: Self) {
        let x = *self;
        let y = new;
        match (x, y) {
            (AnimState::Idle, AnimState::Idle) => {  },
            (AnimState::Walk, AnimState::Walk) => {  },
            (AnimState::Run, AnimState::Run) => {  },
            (AnimState::Cast, AnimState::Cast) => {  },
            (AnimState::Channel, AnimState::Channel) => {  },
            (AnimState::Hit, AnimState::Hit) => {  },
            (AnimState::Death, AnimState::Death) => {  },
            (AnimState::Custom(x_0), AnimState::Custom(y_0)) => {  },
            _ => {},
        }
    }

    proof fn lemma_stable(&self, m: &M, a: Self, b: Self) {
        let x = *self;
        match (x, a, b) {
            (AnimState::Idle, AnimState::Idle, AnimState::Idle) => {  },
            (AnimState::Walk, AnimState::Walk, AnimState::Walk) => {  },
            (AnimState::Run, AnimState::Run, AnimState::Run) => {  },
            (AnimState::Cast, AnimState::Cast, AnimState::Cast) => {  },
            (AnimState::Channel, AnimState::Channel, AnimState::Channel) => {  },
            (AnimState::Hit, AnimState::Hit, AnimState::Hit) => {  },
            (AnimState::Death, AnimState::Death, AnimState::Death) => {  },
            (AnimState::Custom(x_0), AnimState::Custom(a_0), AnimState::Custom(b_0)) => {  },
            _ => {},
        }
    }

    #[verifier::rlimit(60)]
    #[verifier::spinoff_prover]
    proof fn lemma_walk_keeps(&self, m: &M, new: Self) {
        let x = *self;
        let y = new;
        match (x, y) {
            (AnimState::Idle, AnimState::Idle) => {  },
            (AnimState::Walk, AnimState::Walk) => {  },
            (AnimState::Run, AnimState::Run) => {  },
            (AnimState::Cast, AnimState::Cast) => {  },
            (AnimState::Channel, AnimState::Channel) => {  },
            (AnimState::Hit, AnimState::Hit) => {  },
            (AnimState::Death, AnimState::Death) => {  },
            (AnimState::Custom(x_0), AnimState::Custom(y_0)) => { if (leaf(m.anim_state_spec(x_0))) is Err {  } else {   } },
            _ => {},
        }
    }

    proof fn lemma_same_refl(&self, m: &M) {
        let x = *self;
        match x {
            AnimState::Idle => {  },
            AnimState::Walk => {  },
            AnimState::Run => {  },
            AnimState::Cast => {  },
            AnimState::Channel => {  },
            AnimState::Hit => {  },
            AnimState::Death => {  },
            AnimState::Custom(x_0) => {  },
        }
    }
}

impl<M1: IdMap, M2: IdMap> RemapPair<M1, M2> for AnimState {
    proof fn lemma_lands(&self, m1: &M1, m2: &M2, a: Self) {
        let x = *self;
        match (x, a) {
            (AnimState::Idle, AnimState::Idle) => {  },
            (AnimState::Walk, AnimState::Walk) => {  },
            (AnimState::Run, AnimState::Run) => {  },
            (AnimState::Cast, AnimState::Cast) => {  },
            (AnimState::Channel, AnimState::Channel) => {  },
            (AnimState::Hit, AnimState::Hit) => {  },
            (AnimState::Death, AnimState::Death) => {  },
            (AnimState::Custom(x_0), AnimState::Custom(a_0)) => {  },
            _ => {},
        }
    }

    proof fn lemma_fixed(&self, m1: &M1, m2: &M2, a: Self, b: Self) {
        let x = *self;
        match (x, a, b) {
            (AnimState::Idle, AnimState::Idle, AnimState::Idle) => {  },
            (AnimState::Walk, AnimState::Walk, AnimState::Walk) => {  },
            (AnimState::Run, AnimState::Run, AnimState::Run) => {  },
            (AnimState::Cast, AnimState::Cast, AnimState::Cast) => {  },
            (AnimState::Channel, AnimState::Channel, AnimState::Channel) => {  },
            (AnimState::Hit, AnimState::Hit, AnimState::Hit) => {  },
            (AnimState::Death, AnimState::Death, AnimState::Death) => {  },
            (AnimState::Custom(x_0), AnimState::Custom(a_0), AnimState::Custom(b_0)) => {  },
            _ => {},
        }
    }
}

impl<M1: IdMap, M2: IdMap, M12: IdMap> RemapCompose<M1, M2, M12> for AnimState {
    proof fn lemma_compose(&self, m1: &M1, m2: &M2, m12: &M12, a: Self, b: Self) {
        let x = *self;
        match (x, a, b) {
            (AnimState::Idle, AnimState::Idle, AnimState::Idle) => {  },
            (AnimState::Walk, AnimState::Walk, AnimState::Walk) => {  },
            (AnimState::Run, AnimState::Run, AnimState::Run) => {  },
            (AnimState::Cast, AnimState::Cast, AnimState::Cast) => {  },
            (AnimState::Channel, AnimState::Channel, AnimState::Channel) => {  },
            (AnimState::Hit, AnimState::Hit, AnimState::Hit) => {  },
            (AnimState::Death, AnimState::Death, AnimState::Death) => {  },
            (AnimState::Custom(x_0), AnimState::Custom(a_0), AnimState::Custom(b_0)) => {  },
            _ => {},
        }
    }
}

impl Contents for StateClip {
    open spec fn same_as(&self, other: Self) -> bool {
        let x = *self;
        let y = other;
        x.state.same_as(y.state)
                && x.clip == y.clip
                && x.looping == y.looping
                && x.blend_in == y.blend_in
                && x.blend_out == y.blend_out
                && x.rate == y.rate
                && x.priority == y.priority
    }
}

impl<M: IdMap> RemapIds<M> for StateClip {
    open spec fn remap_check(&self, m: &M) -> Result<(), M::Error> {
        let x = *self;
        then(x.state.remap_check(m), Ok(()))
    }

    open spec fn remaps_to(&self, m: &M, new: Self) -> bool {
        let x = *self;
        let y = new;
        x.state.remaps_to(m, y.state)
                && x.clip == y.clip
                && x.looping == y.looping
                && x.blend_in == y.blend_in
                && x.blend_out == y.blend_out
                && x.rate == y.rate
                && x.priority == y.priority
    }

    open spec fn walked_to(&self, m: &M, new: Self) -> bool {
        let x = *self;
        let y = new;
        x.clip == y.clip && x.looping == y.looping && x.blend_in == y.blend_in && x.blend_out == y.blend_out && x.rate == y.rate && x.priority == y.priority && (if (x.state.remap_check(m)) is Err { x.state.walked_to(m, y.state) } else { x.state.remaps_to(m, y.state) && true })
    }

    #[verifier::rlimit(60)]
    #[verifier::spinoff_prover]
    fn remap_ids(&mut self, m: &M) -> (r: Result<(), M::Error>) {
        let x = self;
        let r = x.state.remap_ids(m);
        if r.is_err() {
            return r;
        }
        Ok(())
    }

    proof fn lemma_total(&self, m: &M) {
        let x = *self;
        x.state.lemma_total(m);
    }

    proof fn lemma_identity(&self, m: &M, new: Self) {
        let x = *self;
        let y = new;
        x.state.lemma_identity(m, y.state);
    }

    proof fn lemma_stable(&self, m: &M, a: Self, b: Self) {
        let x = *self;
        x.state.lemma_stable(m, a.state, b.state);
    }

    #[verifier::rlimit(60)]
    #[verifier::spinoff_prover]
    proof fn lemma_walk_keeps(&self, m: &M, new: Self) {
        let x = *self;
        let y = new;
        if (x.state.remap_check(m)) is Err { x.state.lemma_walk_keeps(m, y.state); } else { x.state.lemma_identity(m, y.state);  }
    }

    proof fn lemma_same_refl(&self, m: &M) {
        let x = *self;
        x.state.lemma_same_refl(m);
    }
}

impl<M1: IdMap, M2: IdMap> RemapPair<M1, M2> for StateClip {
    proof fn lemma_lands(&self, m1: &M1, m2: &M2, a: Self) {
        let x = *self;
        x.state.lemma_lands(m1, m2, a.state);
    }

    proof fn lemma_fixed(&self, m1: &M1, m2: &M2, a: Self, b: Self) {
        let x = *self;
        x.state.lemma_fixed(m1, m2, a.state, b.state);
    }
}

impl<M1: IdMap, M2: IdMap, M12: IdMap> RemapCompose<M1, M2, M12> for StateClip {
    proof fn lemma_compose(&self, m1: &M1, m2: &M2, m12: &M12, a: Self, b: Self) {
        let x = *self;
        x.state.lemma_compose(m1, m2, m12, a.state, b.state);
    }
}

impl Contents for Transition {
    open spec fn same_as(&self, other: Self) -> bool {
        let x = *self;
        let y = other;
        x.from.same_as(y.from)
                && x.to.same_as(y.to)
                && x.blend_in == y.blend_in
    }
}

impl<M: IdMap> RemapIds<M> for Transition {
    open spec fn remap_check(&self, m: &M) -> Result<(), M::Error> {
        let x = *self;
        then(x.from.remap_check(m), x.to.remap_check(m))
    }

    open spec fn remaps_to(&self, m: &M, new: Self) -> bool {
        let x = *self;
        let y = new;
        x.from.remaps_to(m, y.from)
                && x.to.remaps_to(m, y.to)
                && x.blend_in == y.blend_in
    }

    open spec fn walked_to(&self, m: &M, new: Self) -> bool {
        let x = *self;
        let y = new;
        x.blend_in == y.blend_in && (if (x.from.remap_check(m)) is Err { x.from.walked_to(m, y.from) && x.to == y.to } else { x.from.remaps_to(m, y.from) && (if (x.to.remap_check(m)) is Err { x.to.walked_to(m, y.to) } else { x.to.remaps_to(m, y.to) && true }) })
    }

    #[verifier::rlimit(60)]
    #[verifier::spinoff_prover]
    fn remap_ids(&mut self, m: &M) -> (r: Result<(), M::Error>) {
        let x = self;
        let r = x.from.remap_ids(m);
        if r.is_err() {
            return r;
        }
        let r = x.to.remap_ids(m);
        if r.is_err() {
            return r;
        }
        Ok(())
    }

    proof fn lemma_total(&self, m: &M) {
        let x = *self;
        x.from.lemma_total(m);
        x.to.lemma_total(m);
    }

    proof fn lemma_identity(&self, m: &M, new: Self) {
        let x = *self;
        let y = new;
        x.from.lemma_identity(m, y.from);
        x.to.lemma_identity(m, y.to);
    }

    proof fn lemma_stable(&self, m: &M, a: Self, b: Self) {
        let x = *self;
        x.from.lemma_stable(m, a.from, b.from);
        x.to.lemma_stable(m, a.to, b.to);
    }

    #[verifier::rlimit(60)]
    #[verifier::spinoff_prover]
    proof fn lemma_walk_keeps(&self, m: &M, new: Self) {
        let x = *self;
        let y = new;
        if (x.from.remap_check(m)) is Err { x.from.lemma_walk_keeps(m, y.from); x.to.lemma_same_refl(m); } else { x.from.lemma_identity(m, y.from); if (x.to.remap_check(m)) is Err { x.to.lemma_walk_keeps(m, y.to); } else { x.to.lemma_identity(m, y.to);  } }
    }

    proof fn lemma_same_refl(&self, m: &M) {
        let x = *self;
        x.from.lemma_same_refl(m); x.to.lemma_same_refl(m);
    }
}

impl<M1: IdMap, M2: IdMap> RemapPair<M1, M2> for Transition {
    proof fn lemma_lands(&self, m1: &M1, m2: &M2, a: Self) {
        let x = *self;
        x.from.lemma_lands(m1, m2, a.from);
        x.to.lemma_lands(m1, m2, a.to);
    }

    proof fn lemma_fixed(&self, m1: &M1, m2: &M2, a: Self, b: Self) {
        let x = *self;
        x.from.lemma_fixed(m1, m2, a.from, b.from);
        x.to.lemma_fixed(m1, m2, a.to, b.to);
    }
}

impl<M1: IdMap, M2: IdMap, M12: IdMap> RemapCompose<M1, M2, M12> for Transition {
    proof fn lemma_compose(&self, m1: &M1, m2: &M2, m12: &M12, a: Self, b: Self) {
        let x = *self;
        x.from.lemma_compose(m1, m2, m12, a.from, b.from);
        x.to.lemma_compose(m1, m2, m12, a.to, b.to);
    }
}

impl Contents for AnimLayer {
    open spec fn same_as(&self, other: Self) -> bool {
        let x = *self;
        let y = other;
        x.name == y.name
                && x.mask == y.mask
                && x.blend == y.blend
                && x.weight == y.weight
                && x.states.same_as(y.states)
                && x.transitions.same_as(y.transitions)
    }
}

impl<M: IdMap> RemapIds<M> for AnimLayer {
    open spec fn remap_check(&self, m: &M) -> Result<(), M::Error> {
        let x = *self;
        then(x.states.remap_check(m), x.transitions.remap_check(m))
    }

    open spec fn remaps_to(&self, m: &M, new: Self) -> bool {
        let x = *self;
        let y = new;
        x.name == y.name
                && x.mask == y.mask
                && x.blend == y.blend
                && x.weight == y.weight
                && x.states.remaps_to(m, y.states)
                && x.transitions.remaps_to(m, y.transitions)
    }

    open spec fn walked_to(&self, m: &M, new: Self) -> bool {
        let x = *self;
        let y = new;
        x.name == y.name && x.mask == y.mask && x.blend == y.blend && x.weight == y.weight && (if (x.states.remap_check(m)) is Err { x.states.walked_to(m, y.states) && x.transitions == y.transitions } else { x.states.remaps_to(m, y.states) && (if (x.transitions.remap_check(m)) is Err { x.transitions.walked_to(m, y.transitions) } else { x.transitions.remaps_to(m, y.transitions) && true }) })
    }

    #[verifier::rlimit(60)]
    #[verifier::spinoff_prover]
    fn remap_ids(&mut self, m: &M) -> (r: Result<(), M::Error>) {
        let x = self;
        let r = x.states.remap_ids(m);
        if r.is_err() {
            return r;
        }
        let r = x.transitions.remap_ids(m);
        if r.is_err() {
            return r;
        }
        Ok(())
    }

    proof fn lemma_total(&self, m: &M) {
        let x = *self;
        x.states.lemma_total(m);
        x.transitions.lemma_total(m);
    }

    proof fn lemma_identity(&self, m: &M, new: Self) {
        let x = *self;
        let y = new;
        x.states.lemma_identity(m, y.states);
        x.transitions.lemma_identity(m, y.transitions);
    }

    proof fn lemma_stable(&self, m: &M, a: Self, b: Self) {
        let x = *self;
        x.states.lemma_stable(m, a.states, b.states);
        x.transitions.lemma_stable(m, a.transitions, b.transitions);
    }

    #[verifier::rlimit(60)]
    #[verifier::spinoff_prover]
    proof fn lemma_walk_keeps(&self, m: &M, new: Self) {
        let x = *self;
        let y = new;
        if (x.states.remap_check(m)) is Err { x.states.lemma_walk_keeps(m, y.states); x.transitions.lemma_same_refl(m); } else { x.states.lemma_identity(m, y.states); if (x.transitions.remap_check(m)) is Err { x.transitions.lemma_walk_keeps(m, y.transitions); } else { x.transitions.lemma_identity(m, y.transitions);  } }
    }

    proof fn lemma_same_refl(&self, m: &M) {
        let x = *self;
        x.states.lemma_same_refl(m); x.transitions.lemma_same_refl(m);
    }
}

impl<M1: IdMap, M2: IdMap> RemapPair<M1, M2> for AnimLayer {
    proof fn lemma_lands(&self, m1: &M1, m2: &M2, a: Self) {
        let x = *self;
        x.states.lemma_lands(m1, m2, a.states);
        x.transitions.lemma_lands(m1, m2, a.transitions);
    }

    proof fn lemma_fixed(&self, m1: &M1, m2: &M2, a: Self, b: Self) {
        let x = *self;
        x.states.lemma_fixed(m1, m2, a.states, b.states);
        x.transitions.lemma_fixed(m1, m2, a.transitions, b.transitions);
    }
}

impl<M1: IdMap, M2: IdMap, M12: IdMap> RemapCompose<M1, M2, M12> for AnimLayer {
    proof fn lemma_compose(&self, m1: &M1, m2: &M2, m12: &M12, a: Self, b: Self) {
        let x = *self;
        x.states.lemma_compose(m1, m2, m12, a.states, b.states);
        x.transitions.lemma_compose(m1, m2, m12, a.transitions, b.transitions);
    }
}

impl Contents for AnimationDescriptor {
    open spec fn same_as(&self, other: Self) -> bool {
        let x = *self;
        let y = other;
        x.unit == y.unit
                && x.mask_groups == y.mask_groups
                && x.layers.same_as(y.layers)
    }
}

impl<M: IdMap> RemapIds<M> for AnimationDescriptor {
    open spec fn remap_check(&self, m: &M) -> Result<(), M::Error> {
        let x = *self;
        then(leaf(m.unit_spec(x.unit)), x.layers.remap_check(m))
    }

    open spec fn remaps_to(&self, m: &M, new: Self) -> bool {
        let x = *self;
        let y = new;
        m.unit_spec(x.unit) == Ok::<UnitId, M::Error>(y.unit)
                && x.mask_groups == y.mask_groups
                && x.layers.remaps_to(m, y.layers)
    }

    open spec fn walked_to(&self, m: &M, new: Self) -> bool {
        let x = *self;
        let y = new;
        x.mask_groups == y.mask_groups && (if (leaf(m.unit_spec(x.unit))) is Err { x.unit == y.unit && x.layers == y.layers } else { m.unit_spec(x.unit) == Ok::<UnitId, M::Error>(y.unit) && (if (x.layers.remap_check(m)) is Err { x.layers.walked_to(m, y.layers) } else { x.layers.remaps_to(m, y.layers) && true }) })
    }

    #[verifier::rlimit(60)]
    #[verifier::spinoff_prover]
    fn remap_ids(&mut self, m: &M) -> (r: Result<(), M::Error>) {
        let x = self;
        match m.unit(x.unit) {
            Ok(v) => { x.unit = v; },
            Err(e) => { return Err(e); },
        }
        let r = x.layers.remap_ids(m);
        if r.is_err() {
            return r;
        }
        Ok(())
    }

    proof fn lemma_total(&self, m: &M) {
        let x = *self;
        x.layers.lemma_total(m);
    }

    proof fn lemma_identity(&self, m: &M, new: Self) {
        let x = *self;
        let y = new;
        x.layers.lemma_identity(m, y.layers);
    }

    proof fn lemma_stable(&self, m: &M, a: Self, b: Self) {
        let x = *self;
        x.layers.lemma_stable(m, a.layers, b.layers);
    }

    #[verifier::rlimit(60)]
    #[verifier::spinoff_prover]
    proof fn lemma_walk_keeps(&self, m: &M, new: Self) {
        let x = *self;
        let y = new;
        if (leaf(m.unit_spec(x.unit))) is Err { x.layers.lemma_same_refl(m); } else {  if (x.layers.remap_check(m)) is Err { x.layers.lemma_walk_keeps(m, y.layers); } else { x.layers.lemma_identity(m, y.layers);  } }
    }

    proof fn lemma_same_refl(&self, m: &M) {
        let x = *self;
        x.layers.lemma_same_refl(m);
    }
}

impl<M1: IdMap, M2: IdMap> RemapPair<M1, M2> for AnimationDescriptor {
    proof fn lemma_lands(&self, m1: &M1, m2: &M2, a: Self) {
        let x = *self;
        x.layers.lemma_lands(m1, m2, a.layers);
    }

    proof fn lemma_fixed(&self, m1: &M1, m2: &M2, a: Self, b: Self) {
        let x = *self;
        x.layers.lemma_fixed(m1, m2, a.layers, b.layers);
    }
}

impl<M1: IdMap, M2: IdMap, M12: IdMap> RemapCompose<M1, M2, M12> for AnimationDescriptor {
    proof fn lemma_compose(&self, m1: &M1, m2: &M2, m12: &M12, a: Self, b: Self) {
        let x = *self;
        x.layers.lemma_compose(m1, m2, m12, a.layers, b.layers);
    }
}

impl Contents for NotifyAction {
    open spec fn same_as(&self, other: Self) -> bool {
        let x = *self;
        let y = other;
        match (x, y) {
            (NotifyAction::Effect { key: x_key, attach: x_attach, lifetime: x_lifetime }, NotifyAction::Effect { key: y_key, attach: y_attach, lifetime: y_lifetime }) => x_key == y_key && x_attach == y_attach && x_lifetime == y_lifetime,
            (NotifyAction::Trigger { event: x_event }, NotifyAction::Trigger { event: y_event }) => x_event == y_event,
            _ => false,
        }
    }
}

impl<M: IdMap> RemapIds<M> for NotifyAction {
    open spec fn remap_check(&self, m: &M) -> Result<(), M::Error> {
        let x = *self;
        match x {
            NotifyAction::Effect { key: x_key, attach: x_attach, lifetime: x_lifetime } => Ok(()),
            NotifyAction::Trigger { event: x_event } => then(leaf(m.event_spec(x_event)), Ok(())),
        }
    }

    open spec fn remaps_to(&self, m: &M, new: Self) -> bool {
        let x = *self;
        let y = new;
        match (x, y) {
            (NotifyAction::Effect { key: x_key, attach: x_attach, lifetime: x_lifetime }, NotifyAction::Effect { key: y_key, attach: y_attach, lifetime: y_lifetime }) => x_key == y_key && x_attach == y_attach && x_lifetime == y_lifetime,
            (NotifyAction::Trigger { event: x_event }, NotifyAction::Trigger { event: y_event }) => m.event_spec(x_event) == Ok::<EventId, M::Error>(y_event),
            _ => false,
        }
    }

    open spec fn walked_to(&self, m: &M, new: Self) -> bool {
        let x = *self;
        let y = new;
        match (x, y) {
            (NotifyAction::Effect { key: x_key, attach: x_attach, lifetime: x_lifetime }, NotifyAction::Effect { key: y_key, attach: y_attach, lifetime: y_lifetime }) => x_key == y_key && x_attach == y_attach && x_lifetime == y_lifetime && true,
            (NotifyAction::Trigger { event: x_event }, NotifyAction::Trigger { event: y_event }) => (if (leaf(m.event_spec(x_event))) is Err { x_event == y_event } else { m.event_spec(x_event) == Ok::<EventId, M::Error>(y_event) && true }),
            _ => false,
        }
    }

    #[verifier::rlimit(60)]
    #[verifier::spinoff_prover]
    fn remap_ids(&mut self, m: &M) -> (r: Result<(), M::Error>) {
        let x = self;
        match x {
            NotifyAction::Effect { key: _, attach: _, lifetime: _ } => {
            },
            NotifyAction::Trigger { event: x_event } => {
                match m.event(*x_event) {
                    Ok(v) => { *x_event = v; },
                    Err(e) => { return Err(e); },
                }
            },
        }
        Ok(())
    }

    proof fn lemma_total(&self, m: &M) {
        let x = *self;
        match x {
            NotifyAction::Effect { key: x_key, attach: x_attach, lifetime: x_lifetime } => {  },
            NotifyAction::Trigger { event: x_event } => {  },
        }
    }

    proof fn lemma_identity(&self, m: &M, new: Self) {
        let x = *self;
        let y = new;
        match (x, y) {
            (NotifyAction::Effect { key: x_key, attach: x_attach, lifetime: x_lifetime }, NotifyAction::Effect { key: y_key, attach: y_attach, lifetime: y_lifetime }) => {  },
            (NotifyAction::Trigger { event: x_event }, NotifyAction::Trigger { event: y_event }) => {  },
            _ => {},
        }
    }

    proof fn lemma_stable(&self, m: &M, a: Self, b: Self) {
        let x = *self;
        match (x, a, b) {
            (NotifyAction::Effect { key: x_key, attach: x_attach, lifetime: x_lifetime }, NotifyAction::Effect { key: a_key, attach: a_attach, lifetime: a_lifetime }, NotifyAction::Effect { key: b_key, attach: b_attach, lifetime: b_lifetime }) => {  },
            (NotifyAction::Trigger { event: x_event }, NotifyAction::Trigger { event: a_event }, NotifyAction::Trigger { event: b_event }) => {  },
            _ => {},
        }
    }

    #[verifier::rlimit(60)]
    #[verifier::spinoff_prover]
    proof fn lemma_walk_keeps(&self, m: &M, new: Self) {
        let x = *self;
        let y = new;
        match (x, y) {
            (NotifyAction::Effect { key: x_key, attach: x_attach, lifetime: x_lifetime }, NotifyAction::Effect { key: y_key, attach: y_attach, lifetime: y_lifetime }) => {  },
            (NotifyAction::Trigger { event: x_event }, NotifyAction::Trigger { event: y_event }) => { if (leaf(m.event_spec(x_event))) is Err {  } else {   } },
            _ => {},
        }
    }

    proof fn lemma_same_refl(&self, m: &M) {
        let x = *self;
        match x {
            NotifyAction::Effect { key: x_key, attach: x_attach, lifetime: x_lifetime } => {  },
            NotifyAction::Trigger { event: x_event } => {  },
        }
    }
}

impl<M1: IdMap, M2: IdMap> RemapPair<M1, M2> for NotifyAction {
    proof fn lemma_lands(&self, m1: &M1, m2: &M2, a: Self) {
        let x = *self;
        match (x, a) {
            (NotifyAction::Effect { key: x_key, attach: x_attach, lifetime: x_lifetime }, NotifyAction::Effect { key: a_key, attach: a_attach, lifetime: a_lifetime }) => {  },
            (NotifyAction::Trigger { event: x_event }, NotifyAction::Trigger { event: a_event }) => {  },
            _ => {},
        }
    }

    proof fn lemma_fixed(&self, m1: &M1, m2: &M2, a: Self, b: Self) {
        let x = *self;
        match (x, a, b) {
            (NotifyAction::Effect { key: x_key, attach: x_attach, lifetime: x_lifetime }, NotifyAction::Effect { key: a_key, attach: a_attach, lifetime: a_lifetime }, NotifyAction::Effect { key: b_key, attach: b_attach, lifetime: b_lifetime }) => {  },
            (NotifyAction::Trigger { event: x_event }, NotifyAction::Trigger { event: a_event }, NotifyAction::Trigger { event: b_event }) => {  },
            _ => {},
        }
    }
}

impl<M1: IdMap, M2: IdMap, M12: IdMap> RemapCompose<M1, M2, M12> for NotifyAction {
    proof fn lemma_compose(&self, m1: &M1, m2: &M2, m12: &M12, a: Self, b: Self) {
        let x = *self;
        match (x, a, b) {
            (NotifyAction::Effect { key: x_key, attach: x_attach, lifetime: x_lifetime }, NotifyAction::Effect { key: a_key, attach: a_attach, lifetime: a_lifetime }, NotifyAction::Effect { key: b_key, attach: b_attach, lifetime: b_lifetime }) => {  },
            (NotifyAction::Trigger { event: x_event }, NotifyAction::Trigger { event: a_event }, NotifyAction::Trigger { event: b_event }) => {  },
            _ => {},
        }
    }
}

impl Contents for NotifyPoint {
    open spec fn same_as(&self, other: Self) -> bool {
        let x = *self;
        let y = other;
        x.at == y.at
                && x.action.same_as(y.action)
    }
}

impl<M: IdMap> RemapIds<M> for NotifyPoint {
    open spec fn remap_check(&self, m: &M) -> Result<(), M::Error> {
        let x = *self;
        then(x.action.remap_check(m), Ok(()))
    }

    open spec fn remaps_to(&self, m: &M, new: Self) -> bool {
        let x = *self;
        let y = new;
        x.at == y.at
                && x.action.remaps_to(m, y.action)
    }

    open spec fn walked_to(&self, m: &M, new: Self) -> bool {
        let x = *self;
        let y = new;
        x.at == y.at && (if (x.action.remap_check(m)) is Err { x.action.walked_to(m, y.action) } else { x.action.remaps_to(m, y.action) && true })
    }

    #[verifier::rlimit(60)]
    #[verifier::spinoff_prover]
    fn remap_ids(&mut self, m: &M) -> (r: Result<(), M::Error>) {
        let x = self;
        let r = x.action.remap_ids(m);
        if r.is_err() {
            return r;
        }
        Ok(())
    }

    proof fn lemma_total(&self, m: &M) {
        let x = *self;
        x.action.lemma_total(m);
    }

    proof fn lemma_identity(&self, m: &M, new: Self) {
        let x = *self;
        let y = new;
        x.action.lemma_identity(m, y.action);
    }

    proof fn lemma_stable(&self, m: &M, a: Self, b: Self) {
        let x = *self;
        x.action.lemma_stable(m, a.action, b.action);
    }

    #[verifier::rlimit(60)]
    #[verifier::spinoff_prover]
    proof fn lemma_walk_keeps(&self, m: &M, new: Self) {
        let x = *self;
        let y = new;
        if (x.action.remap_check(m)) is Err { x.action.lemma_walk_keeps(m, y.action); } else { x.action.lemma_identity(m, y.action);  }
    }

    proof fn lemma_same_refl(&self, m: &M) {
        let x = *self;
        x.action.lemma_same_refl(m);
    }
}

impl<M1: IdMap, M2: IdMap> RemapPair<M1, M2> for NotifyPoint {
    proof fn lemma_lands(&self, m1: &M1, m2: &M2, a: Self) {
        let x = *self;
        x.action.lemma_lands(m1, m2, a.action);
    }

    proof fn lemma_fixed(&self, m1: &M1, m2: &M2, a: Self, b: Self) {
        let x = *self;
        x.action.lemma_fixed(m1, m2, a.action, b.action);
    }
}

impl<M1: IdMap, M2: IdMap, M12: IdMap> RemapCompose<M1, M2, M12> for NotifyPoint {
    proof fn lemma_compose(&self, m1: &M1, m2: &M2, m12: &M12, a: Self, b: Self) {
        let x = *self;
        x.action.lemma_compose(m1, m2, m12, a.action, b.action);
    }
}

impl Contents for ValueBinding {
    open spec fn same_as(&self, other: Self) -> bool {
        let x = *self;
        let y = other;
        match (x, y) {
            (ValueBinding::Health, ValueBinding::Health) => true,
            (ValueBinding::Pool(x_0), ValueBinding::Pool(y_0)) => x_0.same_as(y_0),
            (ValueBinding::Stat(x_0), ValueBinding::Stat(y_0)) => x_0 == y_0,
            (ValueBinding::Level, ValueBinding::Level) => true,
            (ValueBinding::CastProgress, ValueBinding::CastProgress) => true,
            (ValueBinding::Event(x_0), ValueBinding::Event(y_0)) => x_0 == y_0,
            _ => false,
        }
    }
}

impl<M: IdMap> RemapIds<M> for ValueBinding {
    open spec fn remap_check(&self, m: &M) -> Result<(), M::Error> {
        let x = *self;
        match x {
            ValueBinding::Health => Ok(()),
            ValueBinding::Pool(x_0) => then(x_0.remap_check(m), Ok(())),
            ValueBinding::Stat(x_0) => then(leaf(m.stat_spec(x_0)), Ok(())),
            ValueBinding::Level => Ok(()),
            ValueBinding::CastProgress => Ok(()),
            ValueBinding::Event(x_0) => Ok(()),
        }
    }

    open spec fn remaps_to(&self, m: &M, new: Self) -> bool {
        let x = *self;
        let y = new;
        match (x, y) {
            (ValueBinding::Health, ValueBinding::Health) => true,
            (ValueBinding::Pool(x_0), ValueBinding::Pool(y_0)) => x_0.remaps_to(m, y_0),
            (ValueBinding::Stat(x_0), ValueBinding::Stat(y_0)) => m.stat_spec(x_0) == Ok::<StatId, M::Error>(y_0),
            (ValueBinding::Level, ValueBinding::Level) => true,
            (ValueBinding::CastProgress, ValueBinding::CastProgress) => true,
            (ValueBinding::Event(x_0), ValueBinding::Event(y_0)) => x_0 == y_0,
            _ => false,
        }
    }

    open spec fn walked_to(&self, m: &M, new: Self) -> bool {
        let x = *self;
        let y = new;
        match (x, y) {
            (ValueBinding::Health, ValueBinding::Health) => true,
            (ValueBinding::Pool(x_0), ValueBinding::Pool(y_0)) => (if (x_0.remap_check(m)) is Err { x_0.walked_to(m, y_0) } else { x_0.remaps_to(m, y_0) && true }),
            (ValueBinding::Stat(x_0), ValueBinding::Stat(y_0)) => (if (leaf(m.stat_spec(x_0))) is Err { x_0 == y_0 } else { m.stat_spec(x_0) == Ok::<StatId, M::Error>(y_0) && true }),
            (ValueBinding::Level, ValueBinding::Level) => true,
            (ValueBinding::CastProgress, ValueBinding::CastProgress) => true,
            (ValueBinding::Event(x_0), ValueBinding::Event(y_0)) => x_0 == y_0 && true,
            _ => false,
        }
    }

    #[verifier::rlimit(60)]
    #[verifier::spinoff_prover]
    fn remap_ids(&mut self, m: &M) -> (r: Result<(), M::Error>) {
        let x = self;
        match x {
            ValueBinding::Health => {
            },
            ValueBinding::Pool(x_0) => {
                let r = x_0.remap_ids(m);
                if r.is_err() {
                    return r;
                }
            },
            ValueBinding::Stat(x_0) => {
                match m.stat(*x_0) {
                    Ok(v) => { *x_0 = v; },
                    Err(e) => { return Err(e); },
                }
            },
            ValueBinding::Level => {
            },
            ValueBinding::CastProgress => {
            },
            ValueBinding::Event(_) => {
            },
        }
        Ok(())
    }

    proof fn lemma_total(&self, m: &M) {
        let x = *self;
        match x {
            ValueBinding::Health => {  },
            ValueBinding::Pool(x_0) => { x_0.lemma_total(m); },
            ValueBinding::Stat(x_0) => {  },
            ValueBinding::Level => {  },
            ValueBinding::CastProgress => {  },
            ValueBinding::Event(x_0) => {  },
        }
    }

    proof fn lemma_identity(&self, m: &M, new: Self) {
        let x = *self;
        let y = new;
        match (x, y) {
            (ValueBinding::Health, ValueBinding::Health) => {  },
            (ValueBinding::Pool(x_0), ValueBinding::Pool(y_0)) => { x_0.lemma_identity(m, y_0); },
            (ValueBinding::Stat(x_0), ValueBinding::Stat(y_0)) => {  },
            (ValueBinding::Level, ValueBinding::Level) => {  },
            (ValueBinding::CastProgress, ValueBinding::CastProgress) => {  },
            (ValueBinding::Event(x_0), ValueBinding::Event(y_0)) => {  },
            _ => {},
        }
    }

    proof fn lemma_stable(&self, m: &M, a: Self, b: Self) {
        let x = *self;
        match (x, a, b) {
            (ValueBinding::Health, ValueBinding::Health, ValueBinding::Health) => {  },
            (ValueBinding::Pool(x_0), ValueBinding::Pool(a_0), ValueBinding::Pool(b_0)) => { x_0.lemma_stable(m, a_0, b_0); },
            (ValueBinding::Stat(x_0), ValueBinding::Stat(a_0), ValueBinding::Stat(b_0)) => {  },
            (ValueBinding::Level, ValueBinding::Level, ValueBinding::Level) => {  },
            (ValueBinding::CastProgress, ValueBinding::CastProgress, ValueBinding::CastProgress) => {  },
            (ValueBinding::Event(x_0), ValueBinding::Event(a_0), ValueBinding::Event(b_0)) => {  },
            _ => {},
        }
    }

    #[verifier::rlimit(60)]
    #[verifier::spinoff_prover]
    proof fn lemma_walk_keeps(&self, m: &M, new: Self) {
        let x = *self;
        let y = new;
        match (x, y) {
            (ValueBinding::Health, ValueBinding::Health) => {  },
            (ValueBinding::Pool(x_0), ValueBinding::Pool(y_0)) => { if (x_0.remap_check(m)) is Err { x_0.lemma_walk_keeps(m, y_0); } else { x_0.lemma_identity(m, y_0);  } },
            (ValueBinding::Stat(x_0), ValueBinding::Stat(y_0)) => { if (leaf(m.stat_spec(x_0))) is Err {  } else {   } },
            (ValueBinding::Level, ValueBinding::Level) => {  },
            (ValueBinding::CastProgress, ValueBinding::CastProgress) => {  },
            (ValueBinding::Event(x_0), ValueBinding::Event(y_0)) => {  },
            _ => {},
        }
    }

    proof fn lemma_same_refl(&self, m: &M) {
        let x = *self;
        match x {
            ValueBinding::Health => {  },
            ValueBinding::Pool(x_0) => { x_0.lemma_same_refl(m); },
            ValueBinding::Stat(x_0) => {  },
            ValueBinding::Level => {  },
            ValueBinding::CastProgress => {  },
            ValueBinding::Event(x_0) => {  },
        }
    }
}

impl<M1: IdMap, M2: IdMap> RemapPair<M1, M2> for ValueBinding {
    proof fn lemma_lands(&self, m1: &M1, m2: &M2, a: Self) {
        let x = *self;
        match (x, a) {
            (ValueBinding::Health, ValueBinding::Health) => {  },
            (ValueBinding::Pool(x_0), ValueBinding::Pool(a_0)) => { x_0.lemma_lands(m1, m2, a_0); },
            (ValueBinding::Stat(x_0), ValueBinding::Stat(a_0)) => {  },
            (ValueBinding::Level, ValueBinding::Level) => {  },
            (ValueBinding::CastProgress, ValueBinding::CastProgress) => {  },
            (ValueBinding::Event(x_0), ValueBinding::Event(a_0)) => {  },
            _ => {},
        }
    }

    proof fn lemma_fixed(&self, m1: &M1, m2: &M2, a: Self, b: Self) {
        let x = *self;
        match (x, a, b) {
            (ValueBinding::Health, ValueBinding::Health, ValueBinding::Health) => {  },
            (ValueBinding::Pool(x_0), ValueBinding::Pool(a_0), ValueBinding::Pool(b_0)) => { x_0.lemma_fixed(m1, m2, a_0, b_0); },
            (ValueBinding::Stat(x_0), ValueBinding::Stat(a_0), ValueBinding::Stat(b_0)) => {  },
            (ValueBinding::Level, ValueBinding::Level, ValueBinding::Level) => {  },
            (ValueBinding::CastProgress, ValueBinding::CastProgress, ValueBinding::CastProgress) => {  },
            (ValueBinding::Event(x_0), ValueBinding::Event(a_0), ValueBinding::Event(b_0)) => {  },
            _ => {},
        }
    }
}

impl<M1: IdMap, M2: IdMap, M12: IdMap> RemapCompose<M1, M2, M12> for ValueBinding {
    proof fn lemma_compose(&self, m1: &M1, m2: &M2, m12: &M12, a: Self, b: Self) {
        let x = *self;
        match (x, a, b) {
            (ValueBinding::Health, ValueBinding::Health, ValueBinding::Health) => {  },
            (ValueBinding::Pool(x_0), ValueBinding::Pool(a_0), ValueBinding::Pool(b_0)) => { x_0.lemma_compose(m1, m2, m12, a_0, b_0); },
            (ValueBinding::Stat(x_0), ValueBinding::Stat(a_0), ValueBinding::Stat(b_0)) => {  },
            (ValueBinding::Level, ValueBinding::Level, ValueBinding::Level) => {  },
            (ValueBinding::CastProgress, ValueBinding::CastProgress, ValueBinding::CastProgress) => {  },
            (ValueBinding::Event(x_0), ValueBinding::Event(a_0), ValueBinding::Event(b_0)) => {  },
            _ => {},
        }
    }
}

impl Contents for TextSource {
    open spec fn same_as(&self, other: Self) -> bool {
        let x = *self;
        let y = other;
        match (x, y) {
            (TextSource::Literal(x_0), TextSource::Literal(y_0)) => x_0@ == y_0@,
            (TextSource::Value { binding: x_binding, part: x_part, decimals: x_decimals }, TextSource::Value { binding: y_binding, part: y_part, decimals: y_decimals }) => x_binding.same_as(y_binding) && x_part == y_part && x_decimals == y_decimals,
            (TextSource::List(x_0), TextSource::List(y_0)) => x_0 == y_0,
            (TextSource::Talent { tier: x_tier, option: x_option, field: x_field }, TextSource::Talent { tier: y_tier, option: y_option, field: y_field }) => x_tier == y_tier && x_option == y_option && x_field == y_field,
            _ => false,
        }
    }
}

impl<M: IdMap> RemapIds<M> for TextSource {
    open spec fn remap_check(&self, m: &M) -> Result<(), M::Error> {
        let x = *self;
        match x {
            TextSource::Literal(x_0) => Ok(()),
            TextSource::Value { binding: x_binding, part: x_part, decimals: x_decimals } => then(x_binding.remap_check(m), Ok(())),
            TextSource::List(x_0) => Ok(()),
            TextSource::Talent { tier: x_tier, option: x_option, field: x_field } => Ok(()),
        }
    }

    open spec fn remaps_to(&self, m: &M, new: Self) -> bool {
        let x = *self;
        let y = new;
        match (x, y) {
            (TextSource::Literal(x_0), TextSource::Literal(y_0)) => x_0 == y_0,
            (TextSource::Value { binding: x_binding, part: x_part, decimals: x_decimals }, TextSource::Value { binding: y_binding, part: y_part, decimals: y_decimals }) => x_binding.remaps_to(m, y_binding) && x_part == y_part && x_decimals == y_decimals,
            (TextSource::List(x_0), TextSource::List(y_0)) => x_0 == y_0,
            (TextSource::Talent { tier: x_tier, option: x_option, field: x_field }, TextSource::Talent { tier: y_tier, option: y_option, field: y_field }) => x_tier == y_tier && x_option == y_option && x_field == y_field,
            _ => false,
        }
    }

    open spec fn walked_to(&self, m: &M, new: Self) -> bool {
        let x = *self;
        let y = new;
        match (x, y) {
            (TextSource::Literal(x_0), TextSource::Literal(y_0)) => x_0 == y_0 && true,
            (TextSource::Value { binding: x_binding, part: x_part, decimals: x_decimals }, TextSource::Value { binding: y_binding, part: y_part, decimals: y_decimals }) => x_part == y_part && x_decimals == y_decimals && (if (x_binding.remap_check(m)) is Err { x_binding.walked_to(m, y_binding) } else { x_binding.remaps_to(m, y_binding) && true }),
            (TextSource::List(x_0), TextSource::List(y_0)) => x_0 == y_0 && true,
            (TextSource::Talent { tier: x_tier, option: x_option, field: x_field }, TextSource::Talent { tier: y_tier, option: y_option, field: y_field }) => x_tier == y_tier && x_option == y_option && x_field == y_field && true,
            _ => false,
        }
    }

    #[verifier::rlimit(60)]
    #[verifier::spinoff_prover]
    fn remap_ids(&mut self, m: &M) -> (r: Result<(), M::Error>) {
        let x = self;
        match x {
            TextSource::Literal(_) => {
            },
            TextSource::Value { binding: x_binding, part: _, decimals: _ } => {
                let r = x_binding.remap_ids(m);
                if r.is_err() {
                    return r;
                }
            },
            TextSource::List(_) => {
            },
            TextSource::Talent { tier: _, option: _, field: _ } => {
            },
        }
        Ok(())
    }

    proof fn lemma_total(&self, m: &M) {
        let x = *self;
        match x {
            TextSource::Literal(x_0) => {  },
            TextSource::Value { binding: x_binding, part: x_part, decimals: x_decimals } => { x_binding.lemma_total(m); },
            TextSource::List(x_0) => {  },
            TextSource::Talent { tier: x_tier, option: x_option, field: x_field } => {  },
        }
    }

    proof fn lemma_identity(&self, m: &M, new: Self) {
        let x = *self;
        let y = new;
        match (x, y) {
            (TextSource::Literal(x_0), TextSource::Literal(y_0)) => {  },
            (TextSource::Value { binding: x_binding, part: x_part, decimals: x_decimals }, TextSource::Value { binding: y_binding, part: y_part, decimals: y_decimals }) => { x_binding.lemma_identity(m, y_binding); },
            (TextSource::List(x_0), TextSource::List(y_0)) => {  },
            (TextSource::Talent { tier: x_tier, option: x_option, field: x_field }, TextSource::Talent { tier: y_tier, option: y_option, field: y_field }) => {  },
            _ => {},
        }
    }

    proof fn lemma_stable(&self, m: &M, a: Self, b: Self) {
        let x = *self;
        match (x, a, b) {
            (TextSource::Literal(x_0), TextSource::Literal(a_0), TextSource::Literal(b_0)) => {  },
            (TextSource::Value { binding: x_binding, part: x_part, decimals: x_decimals }, TextSource::Value { binding: a_binding, part: a_part, decimals: a_decimals }, TextSource::Value { binding: b_binding, part: b_part, decimals: b_decimals }) => { x_binding.lemma_stable(m, a_binding, b_binding); },
            (TextSource::List(x_0), TextSource::List(a_0), TextSource::List(b_0)) => {  },
            (TextSource::Talent { tier: x_tier, option: x_option, field: x_field }, TextSource::Talent { tier: a_tier, option: a_option, field: a_field }, TextSource::Talent { tier: b_tier, option: b_option, field: b_field }) => {  },
            _ => {},
        }
    }

    #[verifier::rlimit(60)]
    #[verifier::spinoff_prover]
    proof fn lemma_walk_keeps(&self, m: &M, new: Self) {
        let x = *self;
        let y = new;
        match (x, y) {
            (TextSource::Literal(x_0), TextSource::Literal(y_0)) => {  },
            (TextSource::Value { binding: x_binding, part: x_part, decimals: x_decimals }, TextSource::Value { binding: y_binding, part: y_part, decimals: y_decimals }) => { if (x_binding.remap_check(m)) is Err { x_binding.lemma_walk_keeps(m, y_binding); } else { x_binding.lemma_identity(m, y_binding);  } },
            (TextSource::List(x_0), TextSource::List(y_0)) => {  },
            (TextSource::Talent { tier: x_tier, option: x_option, field: x_field }, TextSource::Talent { tier: y_tier, option: y_option, field: y_field }) => {  },
            _ => {},
        }
    }

    proof fn lemma_same_refl(&self, m: &M) {
        let x = *self;
        match x {
            TextSource::Literal(x_0) => {  },
            TextSource::Value { binding: x_binding, part: x_part, decimals: x_decimals } => { x_binding.lemma_same_refl(m); },
            TextSource::List(x_0) => {  },
            TextSource::Talent { tier: x_tier, option: x_option, field: x_field } => {  },
        }
    }
}

impl<M1: IdMap, M2: IdMap> RemapPair<M1, M2> for TextSource {
    proof fn lemma_lands(&self, m1: &M1, m2: &M2, a: Self) {
        let x = *self;
        match (x, a) {
            (TextSource::Literal(x_0), TextSource::Literal(a_0)) => {  },
            (TextSource::Value { binding: x_binding, part: x_part, decimals: x_decimals }, TextSource::Value { binding: a_binding, part: a_part, decimals: a_decimals }) => { x_binding.lemma_lands(m1, m2, a_binding); },
            (TextSource::List(x_0), TextSource::List(a_0)) => {  },
            (TextSource::Talent { tier: x_tier, option: x_option, field: x_field }, TextSource::Talent { tier: a_tier, option: a_option, field: a_field }) => {  },
            _ => {},
        }
    }

    proof fn lemma_fixed(&self, m1: &M1, m2: &M2, a: Self, b: Self) {
        let x = *self;
        match (x, a, b) {
            (TextSource::Literal(x_0), TextSource::Literal(a_0), TextSource::Literal(b_0)) => {  },
            (TextSource::Value { binding: x_binding, part: x_part, decimals: x_decimals }, TextSource::Value { binding: a_binding, part: a_part, decimals: a_decimals }, TextSource::Value { binding: b_binding, part: b_part, decimals: b_decimals }) => { x_binding.lemma_fixed(m1, m2, a_binding, b_binding); },
            (TextSource::List(x_0), TextSource::List(a_0), TextSource::List(b_0)) => {  },
            (TextSource::Talent { tier: x_tier, option: x_option, field: x_field }, TextSource::Talent { tier: a_tier, option: a_option, field: a_field }, TextSource::Talent { tier: b_tier, option: b_option, field: b_field }) => {  },
            _ => {},
        }
    }
}

impl<M1: IdMap, M2: IdMap, M12: IdMap> RemapCompose<M1, M2, M12> for TextSource {
    proof fn lemma_compose(&self, m1: &M1, m2: &M2, m12: &M12, a: Self, b: Self) {
        let x = *self;
        match (x, a, b) {
            (TextSource::Literal(x_0), TextSource::Literal(a_0), TextSource::Literal(b_0)) => {  },
            (TextSource::Value { binding: x_binding, part: x_part, decimals: x_decimals }, TextSource::Value { binding: a_binding, part: a_part, decimals: a_decimals }, TextSource::Value { binding: b_binding, part: b_part, decimals: b_decimals }) => { x_binding.lemma_compose(m1, m2, m12, a_binding, b_binding); },
            (TextSource::List(x_0), TextSource::List(a_0), TextSource::List(b_0)) => {  },
            (TextSource::Talent { tier: x_tier, option: x_option, field: x_field }, TextSource::Talent { tier: a_tier, option: a_option, field: a_field }, TextSource::Talent { tier: b_tier, option: b_option, field: b_field }) => {  },
            _ => {},
        }
    }
}

impl Contents for UiAction {
    open spec fn same_as(&self, other: Self) -> bool {
        let x = *self;
        let y = other;
        match (x, y) {
            (UiAction::CastSlot(x_0), UiAction::CastSlot(y_0)) => x_0 == y_0,
            (UiAction::PickTalent { tier: x_tier, option: x_option }, UiAction::PickTalent { tier: y_tier, option: y_option }) => x_tier == y_tier && x_option == y_option,
            (UiAction::Trigger { event: x_event }, UiAction::Trigger { event: y_event }) => x_event == y_event,
            _ => false,
        }
    }
}

impl<M: IdMap> RemapIds<M> for UiAction {
    open spec fn remap_check(&self, m: &M) -> Result<(), M::Error> {
        let x = *self;
        match x {
            UiAction::CastSlot(x_0) => Ok(()),
            UiAction::PickTalent { tier: x_tier, option: x_option } => Ok(()),
            UiAction::Trigger { event: x_event } => then(leaf(m.event_spec(x_event)), Ok(())),
        }
    }

    open spec fn remaps_to(&self, m: &M, new: Self) -> bool {
        let x = *self;
        let y = new;
        match (x, y) {
            (UiAction::CastSlot(x_0), UiAction::CastSlot(y_0)) => x_0 == y_0,
            (UiAction::PickTalent { tier: x_tier, option: x_option }, UiAction::PickTalent { tier: y_tier, option: y_option }) => x_tier == y_tier && x_option == y_option,
            (UiAction::Trigger { event: x_event }, UiAction::Trigger { event: y_event }) => m.event_spec(x_event) == Ok::<EventId, M::Error>(y_event),
            _ => false,
        }
    }

    open spec fn walked_to(&self, m: &M, new: Self) -> bool {
        let x = *self;
        let y = new;
        match (x, y) {
            (UiAction::CastSlot(x_0), UiAction::CastSlot(y_0)) => x_0 == y_0 && true,
            (UiAction::PickTalent { tier: x_tier, option: x_option }, UiAction::PickTalent { tier: y_tier, option: y_option }) => x_tier == y_tier && x_option == y_option && true,
            (UiAction::Trigger { event: x_event }, UiAction::Trigger { event: y_event }) => (if (leaf(m.event_spec(x_event))) is Err { x_event == y_event } else { m.event_spec(x_event) == Ok::<EventId, M::Error>(y_event) && true }),
            _ => false,
        }
    }

    #[verifier::rlimit(60)]
    #[verifier::spinoff_prover]
    fn remap_ids(&mut self, m: &M) -> (r: Result<(), M::Error>) {
        let x = self;
        match x {
            UiAction::CastSlot(_) => {
            },
            UiAction::PickTalent { tier: _, option: _ } => {
            },
            UiAction::Trigger { event: x_event } => {
                match m.event(*x_event) {
                    Ok(v) => { *x_event = v; },
                    Err(e) => { return Err(e); },
                }
            },
        }
        Ok(())
    }

    proof fn lemma_total(&self, m: &M) {
        let x = *self;
        match x {
            UiAction::CastSlot(x_0) => {  },
            UiAction::PickTalent { tier: x_tier, option: x_option } => {  },
            UiAction::Trigger { event: x_event } => {  },
        }
    }

    proof fn lemma_identity(&self, m: &M, new: Self) {
        let x = *self;
        let y = new;
        match (x, y) {
            (UiAction::CastSlot(x_0), UiAction::CastSlot(y_0)) => {  },
            (UiAction::PickTalent { tier: x_tier, option: x_option }, UiAction::PickTalent { tier: y_tier, option: y_option }) => {  },
            (UiAction::Trigger { event: x_event }, UiAction::Trigger { event: y_event }) => {  },
            _ => {},
        }
    }

    proof fn lemma_stable(&self, m: &M, a: Self, b: Self) {
        let x = *self;
        match (x, a, b) {
            (UiAction::CastSlot(x_0), UiAction::CastSlot(a_0), UiAction::CastSlot(b_0)) => {  },
            (UiAction::PickTalent { tier: x_tier, option: x_option }, UiAction::PickTalent { tier: a_tier, option: a_option }, UiAction::PickTalent { tier: b_tier, option: b_option }) => {  },
            (UiAction::Trigger { event: x_event }, UiAction::Trigger { event: a_event }, UiAction::Trigger { event: b_event }) => {  },
            _ => {},
        }
    }

    #[verifier::rlimit(60)]
    #[verifier::spinoff_prover]
    proof fn lemma_walk_keeps(&self, m: &M, new: Self) {
        let x = *self;
        let y = new;
        match (x, y) {
            (UiAction::CastSlot(x_0), UiAction::CastSlot(y_0)) => {  },
            (UiAction::PickTalent { tier: x_tier, option: x_option }, UiAction::PickTalent { tier: y_tier, option: y_option }) => {  },
            (UiAction::Trigger { event: x_event }, UiAction::Trigger { event: y_event }) => { if (leaf(m.event_spec(x_event))) is Err {  } else {   } },
            _ => {},
        }
    }

    proof fn lemma_same_refl(&self, m: &M) {
        let x = *self;
        match x {
            UiAction::CastSlot(x_0) => {  },
            UiAction::PickTalent { tier: x_tier, option: x_option } => {  },
            UiAction::Trigger { event: x_event } => {  },
        }
    }
}

impl<M1: IdMap, M2: IdMap> RemapPair<M1, M2> for UiAction {
    proof fn lemma_lands(&self, m1: &M1, m2: &M2, a: Self) {
        let x = *self;
        match (x, a) {
            (UiAction::CastSlot(x_0), UiAction::CastSlot(a_0)) => {  },
            (UiAction::PickTalent { tier: x_tier, option: x_option }, UiAction::PickTalent { tier: a_tier, option: a_option }) => {  },
            (UiAction::Trigger { event: x_event }, UiAction::Trigger { event: a_event }) => {  },
            _ => {},
        }
    }

    proof fn lemma_fixed(&self, m1: &M1, m2: &M2, a: Self, b: Self) {
        let x = *self;
        match (x, a, b) {
            (UiAction::CastSlot(x_0), UiAction::CastSlot(a_0), UiAction::CastSlot(b_0)) => {  },
            (UiAction::PickTalent { tier: x_tier, option: x_option }, UiAction::PickTalent { tier: a_tier, option: a_option }, UiAction::PickTalent { tier: b_tier, option: b_option }) => {  },
            (UiAction::Trigger { event: x_event }, UiAction::Trigger { event: a_event }, UiAction::Trigger { event: b_event }) => {  },
            _ => {},
        }
    }
}

impl<M1: IdMap, M2: IdMap, M12: IdMap> RemapCompose<M1, M2, M12> for UiAction {
    proof fn lemma_compose(&self, m1: &M1, m2: &M2, m12: &M12, a: Self, b: Self) {
        let x = *self;
        match (x, a, b) {
            (UiAction::CastSlot(x_0), UiAction::CastSlot(a_0), UiAction::CastSlot(b_0)) => {  },
            (UiAction::PickTalent { tier: x_tier, option: x_option }, UiAction::PickTalent { tier: a_tier, option: a_option }, UiAction::PickTalent { tier: b_tier, option: b_option }) => {  },
            (UiAction::Trigger { event: x_event }, UiAction::Trigger { event: a_event }, UiAction::Trigger { event: b_event }) => {  },
            _ => {},
        }
    }
}

impl Contents for UiRoot {
    open spec fn same_as(&self, other: Self) -> bool {
        let x = *self;
        let y = other;
        x.name == y.name
                && x.when == y.when
                && x.summon == y.summon
                && x.subject == y.subject
                && widget_same(x.root, y.root)
    }
}

impl<M: IdMap> RemapIds<M> for UiRoot {
    open spec fn remap_check(&self, m: &M) -> Result<(), M::Error> {
        let x = *self;
        then(widget_check(x.root, m), Ok(()))
    }

    open spec fn remaps_to(&self, m: &M, new: Self) -> bool {
        let x = *self;
        let y = new;
        x.name == y.name
                && x.when == y.when
                && x.summon == y.summon
                && x.subject == y.subject
                && widget_remaps(x.root, m, y.root)
    }

    open spec fn walked_to(&self, m: &M, new: Self) -> bool {
        let x = *self;
        let y = new;
        x.name == y.name && x.when == y.when && x.summon == y.summon && x.subject == y.subject && (if (widget_check(x.root, m)) is Err { widget_walked(x.root, m, y.root) } else { widget_remaps(x.root, m, y.root) && true })
    }

    #[verifier::rlimit(60)]
    #[verifier::spinoff_prover]
    fn remap_ids(&mut self, m: &M) -> (r: Result<(), M::Error>) {
        let x = self;
        let r = remap_widget(&mut x.root, m);
        if r.is_err() {
            return r;
        }
        Ok(())
    }

    proof fn lemma_total(&self, m: &M) {
        let x = *self;
        lemma_widget_total(x.root, m);
    }

    proof fn lemma_identity(&self, m: &M, new: Self) {
        let x = *self;
        let y = new;
        lemma_widget_identity(x.root, m, y.root);
    }

    proof fn lemma_stable(&self, m: &M, a: Self, b: Self) {
        let x = *self;
        lemma_widget_stable(x.root, m, a.root, b.root);
    }

    #[verifier::rlimit(60)]
    #[verifier::spinoff_prover]
    proof fn lemma_walk_keeps(&self, m: &M, new: Self) {
        let x = *self;
        let y = new;
        if (widget_check(x.root, m)) is Err { lemma_widget_walk_keeps(x.root, m, y.root); } else { lemma_widget_identity(x.root, m, y.root);  }
    }

    proof fn lemma_same_refl(&self, m: &M) {
        let x = *self;
        lemma_widget_same_refl(x.root, m);
    }
}

impl<M1: IdMap, M2: IdMap> RemapPair<M1, M2> for UiRoot {
    proof fn lemma_lands(&self, m1: &M1, m2: &M2, a: Self) {
        let x = *self;
        lemma_widget_lands(x.root, m1, m2, a.root);
    }

    proof fn lemma_fixed(&self, m1: &M1, m2: &M2, a: Self, b: Self) {
        let x = *self;
        lemma_widget_fixed(x.root, m1, m2, a.root, b.root);
    }
}

impl<M1: IdMap, M2: IdMap, M12: IdMap> RemapCompose<M1, M2, M12> for UiRoot {
    proof fn lemma_compose(&self, m1: &M1, m2: &M2, m12: &M12, a: Self, b: Self) {
        let x = *self;
        lemma_widget_compose(x.root, m1, m2, m12, a.root, b.root);
    }
}

impl Contents for GuestEffects {
    open spec fn same_as(&self, other: Self) -> bool {
        let x = *self;
        let y = other;
        impacts_same(x.effects@, y.effects@)
    }
}

impl<M: IdMap> RemapIds<M> for GuestEffects {
    open spec fn remap_check(&self, m: &M) -> Result<(), M::Error> {
        let x = *self;
        then(impacts_check(x.effects@, m), Ok(()))
    }

    open spec fn remaps_to(&self, m: &M, new: Self) -> bool {
        let x = *self;
        let y = new;
        impacts_remaps(x.effects@, m, y.effects@)
    }

    open spec fn walked_to(&self, m: &M, new: Self) -> bool {
        let x = *self;
        let y = new;
        (if (impacts_check(x.effects@, m)) is Err { impacts_walked(x.effects@, m, y.effects@) } else { impacts_remaps(x.effects@, m, y.effects@) && true })
    }

    #[verifier::rlimit(60)]
    #[verifier::spinoff_prover]
    fn remap_ids(&mut self, m: &M) -> (r: Result<(), M::Error>) {
        let x = self;
        let r = remap_impacts(&mut x.effects, m);
        if r.is_err() {
            return r;
        }
        Ok(())
    }

    proof fn lemma_total(&self, m: &M) {
        let x = *self;
        lemma_impacts_total(x.effects@, m);
    }

    proof fn lemma_identity(&self, m: &M, new: Self) {
        let x = *self;
        let y = new;
        lemma_impacts_identity(x.effects@, m, y.effects@);
    }

    proof fn lemma_stable(&self, m: &M, a: Self, b: Self) {
        let x = *self;
        lemma_impacts_stable(x.effects@, m, a.effects@, b.effects@);
    }

    #[verifier::rlimit(60)]
    #[verifier::spinoff_prover]
    proof fn lemma_walk_keeps(&self, m: &M, new: Self) {
        let x = *self;
        let y = new;
        if (impacts_check(x.effects@, m)) is Err { lemma_impacts_walk_keeps(x.effects@, m, y.effects@); } else { lemma_impacts_identity(x.effects@, m, y.effects@);  }
    }

    proof fn lemma_same_refl(&self, m: &M) {
        let x = *self;
        lemma_impacts_same_refl(x.effects@, m);
    }
}

impl<M1: IdMap, M2: IdMap> RemapPair<M1, M2> for GuestEffects {
    proof fn lemma_lands(&self, m1: &M1, m2: &M2, a: Self) {
        let x = *self;
        lemma_impacts_lands(x.effects@, m1, m2, a.effects@);
    }

    proof fn lemma_fixed(&self, m1: &M1, m2: &M2, a: Self, b: Self) {
        let x = *self;
        lemma_impacts_fixed(x.effects@, m1, m2, a.effects@, b.effects@);
    }
}

impl<M1: IdMap, M2: IdMap, M12: IdMap> RemapCompose<M1, M2, M12> for GuestEffects {
    proof fn lemma_compose(&self, m1: &M1, m2: &M2, m12: &M12, a: Self, b: Self) {
        let x = *self;
        lemma_impacts_compose(x.effects@, m1, m2, m12, a.effects@, b.effects@);
    }
}

impl Contents for TriggerContext {
    open spec fn same_as(&self, other: Self) -> bool {
        let x = *self;
        let y = other;
        x.event == y.event
                && x.payload.same_as(y.payload)
    }
}

impl<M: IdMap> RemapIds<M> for TriggerContext {
    open spec fn remap_check(&self, m: &M) -> Result<(), M::Error> {
        let x = *self;
        then(leaf(m.event_spec(x.event)), x.payload.remap_check(m))
    }

    open spec fn remaps_to(&self, m: &M, new: Self) -> bool {
        let x = *self;
        let y = new;
        m.event_spec(x.event) == Ok::<EventId, M::Error>(y.event)
                && x.payload.remaps_to(m, y.payload)
    }

    open spec fn walked_to(&self, m: &M, new: Self) -> bool {
        let x = *self;
        let y = new;
        (if (leaf(m.event_spec(x.event))) is Err { x.event == y.event && x.payload == y.payload } else { m.event_spec(x.event) == Ok::<EventId, M::Error>(y.event) && (if (x.payload.remap_check(m)) is Err { x.payload.walked_to(m, y.payload) } else { x.payload.remaps_to(m, y.payload) && true }) })
    }

    #[verifier::rlimit(60)]
    #[verifier::spinoff_prover]
    fn remap_ids(&mut self, m: &M) -> (r: Result<(), M::Error>) {
        let x = self;
        match m.event(x.event) {
            Ok(v) => { x.event = v; },
            Err(e) => { return Err(e); },
        }
        let r = x.payload.remap_ids(m);
        if r.is_err() {
            return r;
        }
        Ok(())
    }

    proof fn lemma_total(&self, m: &M) {
        let x = *self;
        x.payload.lemma_total(m);
    }

    proof fn lemma_identity(&self, m: &M, new: Self) {
        let x = *self;
        let y = new;
        x.payload.lemma_identity(m, y.payload);
    }

    proof fn lemma_stable(&self, m: &M, a: Self, b: Self) {
        let x = *self;
        x.payload.lemma_stable(m, a.payload, b.payload);
    }

    #[verifier::rlimit(60)]
    #[verifier::spinoff_prover]
    proof fn lemma_walk_keeps(&self, m: &M, new: Self) {
        let x = *self;
        let y = new;
        if (leaf(m.event_spec(x.event))) is Err { x.payload.lemma_same_refl(m); } else {  if (x.payload.remap_check(m)) is Err { x.payload.lemma_walk_keeps(m, y.payload); } else { x.payload.lemma_identity(m, y.payload);  } }
    }

    proof fn lemma_same_refl(&self, m: &M) {
        let x = *self;
        x.payload.lemma_same_refl(m);
    }
}

impl<M1: IdMap, M2: IdMap> RemapPair<M1, M2> for TriggerContext {
    proof fn lemma_lands(&self, m1: &M1, m2: &M2, a: Self) {
        let x = *self;
        x.payload.lemma_lands(m1, m2, a.payload);
    }

    proof fn lemma_fixed(&self, m1: &M1, m2: &M2, a: Self, b: Self) {
        let x = *self;
        x.payload.lemma_fixed(m1, m2, a.payload, b.payload);
    }
}

impl<M1: IdMap, M2: IdMap, M12: IdMap> RemapCompose<M1, M2, M12> for TriggerContext {
    proof fn lemma_compose(&self, m1: &M1, m2: &M2, m12: &M12, a: Self, b: Self) {
        let x = *self;
        x.payload.lemma_compose(m1, m2, m12, a.payload, b.payload);
    }
}

/// A total map (identity, or a complete local-to-global table) never makes a
/// walk fail, whatever the tree holds.
pub proof fn law_total_map_never_fails<M: IdMap, T: RemapIds<M>>(tree: T, m: &M)
    requires
        total(m),
    ensures
        tree.remap_check(m) is Ok,
{
    tree.lemma_total(m);
}

/// Remapping through a map that keeps every handle leaves the tree's contents
/// exactly as they were.
pub proof fn law_keeping_map_changes_nothing<M: IdMap, T: RemapIds<M>>(tree: T, m: &M, new: T)
    requires
        keeps_ids(m),
        tree.remaps_to(m, new),
    ensures
        tree.same_as(new),
{
    tree.lemma_identity(m, new);
}

/// A walk that a map stops part-way leaves everything it did not reach as it
/// was; through a map that keeps every handle it leaves the whole tree's
/// contents as they were.
pub proof fn law_failed_walk_keeps_contents<M: IdMap, T: RemapIds<M>>(tree: T, m: &M, new: T)
    requires
        keeps_ids(m),
        tree.walked_to(m, new),
    ensures
        tree.same_as(new),
{
    tree.lemma_walk_keeps(m, new);
}

/// Walking a tree through `m1` and then through `m2` is walking it once through
/// their composite: the second walk's result is what the composite makes of
/// the tree.
pub proof fn law_walking_twice_is_walking_the_composite<M1: IdMap, M2: IdMap, M12: IdMap, T: RemapCompose<M1, M2, M12>>(
    tree: T,
    m1: &M1,
    m2: &M2,
    m12: &M12,
    once: T,
    twice: T,
)
    requires
        composes(m1, m2, m12),
        RemapIds::<M1>::remaps_to(&tree, m1, once),
        RemapIds::<M2>::remaps_to(&once, m2, twice),
    ensures
        RemapIds::<M12>::remaps_to(&tree, m12, twice),
{
    tree.lemma_compose(m1, m2, m12, once, twice);
}

/// The identity map translates every handle, and to itself.
pub proof fn law_keep_ids_is_total_identity()
    ensures
        total(&KeepIds),
        keeps_ids(&KeepIds),
{
}

} // verus!
