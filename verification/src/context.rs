//! `ModContext` — the guest-side authoring context a mod registers its content
//! into.
//!
//! Every name-keyed id family has its own interner, so a mod writes names and
//! holds dense local handles; descriptors are stored at the index of the handle
//! their name was minted as. [`ModContext::finish`] turns it all into the
//! [`Registration`] bundle: every name table next to the descriptors, aligned
//! index for index. The handler, tick and trigger callbacks a mod registers are
//! code, and live with the guest runtime rather than here.

use vstd::prelude::*;

use crate::abilities::AbilityDescriptor;
use crate::behaviors::BuffSpec;
use crate::descriptors::{Curve, Names, Registration};
use crate::ids::{
    AbilityId, BuffId, CurveId, DamageTypeId, DimId, EventId, Handle, HandlerId, ParamId, ResourceId, StackId,
    StatId, TagClassId, TagId, TalentId,
};
use crate::interner::{distinct_names, index_of, interned, interned_all, law_new_names_take_the_next_indices, Interner};
use crate::manifest::{abi_version, abi_version_spec, Version};
use crate::talents::TalentDescriptor;

verus! {

/// The name tables a context keeps, one per interned id family.
#[derive(Clone, Copy, PartialEq, Eq, Structural, Debug)]
pub enum NameTable {
    Stats,
    Resources,
    Stacks,
    Tags,
    TagClasses,
    Params,
    Events,
    Buffs,
    Curves,
    DamageTypes,
    Dims,
    Abilities,
    Talents,
    Handlers,
}

/// The largest raw index the family behind a table can represent.
pub open spec fn family_limit(t: NameTable) -> u32 {
    match t {
        NameTable::Stats => StatId::max_raw_spec(),
        NameTable::Resources => ResourceId::max_raw_spec(),
        NameTable::Stacks => StackId::max_raw_spec(),
        NameTable::Tags => TagId::max_raw_spec(),
        NameTable::TagClasses => TagClassId::max_raw_spec(),
        NameTable::Params => ParamId::max_raw_spec(),
        NameTable::Events => EventId::max_raw_spec(),
        NameTable::Buffs => BuffId::max_raw_spec(),
        NameTable::Curves => CurveId::max_raw_spec(),
        NameTable::DamageTypes => DamageTypeId::max_raw_spec(),
        NameTable::Dims => DimId::max_raw_spec(),
        NameTable::Abilities => AbilityId::max_raw_spec(),
        NameTable::Talents => TalentId::max_raw_spec(),
        NameTable::Handlers => HandlerId::max_raw_spec(),
    }
}

/// Everything a mod registers, as it registers it.
pub struct ModContext {
    stats: Interner<StatId>,
    resources: Interner<ResourceId>,
    stacks: Interner<StackId>,
    tags: Interner<TagId>,
    tag_class_names: Interner<TagClassId>,
    params: Interner<ParamId>,
    events: Interner<EventId>,
    buff_names: Interner<BuffId>,
    curve_names: Interner<CurveId>,
    damage_types: Interner<DamageTypeId>,
    dims: Interner<DimId>,
    ability_names: Interner<AbilityId>,
    talent_names: Interner<TalentId>,
    handlers: Interner<HandlerId>,
    abilities: Vec<AbilityDescriptor>,
    talents: Vec<TalentDescriptor>,
    buffs: Vec<BuffSpec>,
    tag_classes: Vec<(TagId, TagClassId)>,
    curves: Vec<Curve>,
}

/// The name table of one interner, as plain strings in raw-index order.
pub fn table<H: Handle>(interner: &Interner<H>) -> (r: Vec<String>)
    ensures
        r@.map_values(|s: String| s@) == interner.view(),
{
    let n = interner.len();
    let mut out: Vec<String> = Vec::new();
    let mut raw: usize = 0;
    while raw < n
        invariant
            n == interner.view().len(),
            n <= H::max_raw_spec() as int + 1,
            raw <= n,
            out@.map_values(|s: String| s@) == interner.view().take(raw as int),
        decreases n - raw,
    {
        let h = H::from_raw(raw as u32);
        assert(h.raw_spec() == raw);
        match interner.resolve(h) {
            Some(name) => {
                let ghost before = out@;
                let owned = name.to_owned();
                out.push(owned);
                proof {
                    assert(owned@ == interner.view()[raw as int]);
                    assert(out@ == before.push(owned));
                    assert(before.map_values(|s: String| s@) == interner.view().take(raw as int));
                    let mapped = out@.map_values(|s: String| s@);
                    let target = interner.view().take(raw + 1);
                    let prior = before.map_values(|s: String| s@);
                    assert(prior.len() == before.len());
                    assert(before.len() == raw);
                    assert(out@.len() == raw + 1);
                    assert forall|j: int| 0 <= j < raw + 1 implies #[trigger] mapped[j] == target[j] by {
                        if j < raw {
                            assert(out@[j] == before[j]);
                            assert(prior[j] == interner.view().take(raw as int)[j]);
                        }
                    }
                    assert(mapped.len() == target.len());
                    assert(out@.map_values(|s: String| s@) =~= interner.view().take(raw + 1));
                }
            },
            None => {
                proof {
                    assert(false);
                }
            },
        }
        raw = raw + 1;
    }
    proof {
        assert(interner.view().take(n as int) =~= interner.view());
    }
    out
}

/// Whether every descriptor sits at the index its own handle names.
pub open spec fn ids_aligned_abilities(ds: Seq<AbilityDescriptor>) -> bool {
    forall|i: int| 0 <= i < ds.len() ==> (#[trigger] ds[i]).id.0 == i
}

/// Whether every talent sits at the index its own handle names.
pub open spec fn ids_aligned_talents(ds: Seq<TalentDescriptor>) -> bool {
    forall|i: int| 0 <= i < ds.len() ==> (#[trigger] ds[i]).id.0 == i
}

/// Whether every buff sits at the index its own handle names.
pub open spec fn ids_aligned_buffs(ds: Seq<BuffSpec>) -> bool {
    forall|i: int| 0 <= i < ds.len() ==> (#[trigger] ds[i]).id.0 == i
}

impl ModContext {
    /// The names interned in one table, in raw-index order.
    pub closed spec fn names(&self, t: NameTable) -> Seq<Seq<char>> {
        match t {
            NameTable::Stats => self.stats.view(),
            NameTable::Resources => self.resources.view(),
            NameTable::Stacks => self.stacks.view(),
            NameTable::Tags => self.tags.view(),
            NameTable::TagClasses => self.tag_class_names.view(),
            NameTable::Params => self.params.view(),
            NameTable::Events => self.events.view(),
            NameTable::Buffs => self.buff_names.view(),
            NameTable::Curves => self.curve_names.view(),
            NameTable::DamageTypes => self.damage_types.view(),
            NameTable::Dims => self.dims.view(),
            NameTable::Abilities => self.ability_names.view(),
            NameTable::Talents => self.talent_names.view(),
            NameTable::Handlers => self.handlers.view(),
        }
    }

    /// The abilities registered so far, in order.
    pub closed spec fn abilities_spec(&self) -> Seq<AbilityDescriptor> {
        self.abilities@
    }

    /// The talents registered so far, in order.
    pub closed spec fn talents_spec(&self) -> Seq<TalentDescriptor> {
        self.talents@
    }

    /// The buffs registered so far, in order.
    pub closed spec fn buffs_spec(&self) -> Seq<BuffSpec> {
        self.buffs@
    }

    /// The tag classes registered so far, in order.
    pub closed spec fn tag_classes_spec(&self) -> Seq<(TagId, TagClassId)> {
        self.tag_classes@
    }

    /// The curves registered so far, in order.
    pub closed spec fn curves_spec(&self) -> Seq<Curve> {
        self.curves@
    }

    /// The context's invariant: every table free of repeats and within its
    /// family's range; abilities, talents and buffs stored at the index their
    /// handle names, one per interned name; one curve per curve name.
    pub closed spec fn wf(&self) -> bool {
        &&& distinct_names(self.stats.view()) && self.stats.view().len() <= StatId::max_raw_spec() as int + 1
        &&& distinct_names(self.resources.view()) && self.resources.view().len() <= ResourceId::max_raw_spec() as int + 1
        &&& distinct_names(self.stacks.view()) && self.stacks.view().len() <= StackId::max_raw_spec() as int + 1
        &&& distinct_names(self.tags.view()) && self.tags.view().len() <= TagId::max_raw_spec() as int + 1
        &&& distinct_names(self.tag_class_names.view()) && self.tag_class_names.view().len() <= TagClassId::max_raw_spec() as int + 1
        &&& distinct_names(self.params.view()) && self.params.view().len() <= ParamId::max_raw_spec() as int + 1
        &&& distinct_names(self.events.view()) && self.events.view().len() <= EventId::max_raw_spec() as int + 1
        &&& distinct_names(self.buff_names.view()) && self.buff_names.view().len() <= BuffId::max_raw_spec() as int + 1
        &&& distinct_names(self.curve_names.view()) && self.curve_names.view().len() <= CurveId::max_raw_spec() as int + 1
        &&& distinct_names(self.damage_types.view()) && self.damage_types.view().len() <= DamageTypeId::max_raw_spec() as int + 1
        &&& distinct_names(self.dims.view()) && self.dims.view().len() <= DimId::max_raw_spec() as int + 1
        &&& distinct_names(self.ability_names.view()) && self.ability_names.view().len() <= AbilityId::max_raw_spec() as int + 1
        &&& distinct_names(self.talent_names.view()) && self.talent_names.view().len() <= TalentId::max_raw_spec() as int + 1
        &&& distinct_names(self.handlers.view()) && self.handlers.view().len() <= HandlerId::max_raw_spec() as int + 1
        &&& self.abilities@.len() == self.ability_names.view().len() && ids_aligned_abilities(self.abilities@)
        &&& self.talents@.len() == self.talent_names.view().len() && ids_aligned_talents(self.talents@)
        &&& self.buffs@.len() == self.buff_names.view().len() && ids_aligned_buffs(self.buffs@)
        &&& self.curves@.len() == self.curve_names.view().len()
    }

    /// An empty context.
    pub fn new() -> (r: Self)
        ensures
            r.wf(),
            forall|t: NameTable| r.names(t).len() == 0,
            r.abilities_spec().len() == 0,
            r.talents_spec().len() == 0,
            r.buffs_spec().len() == 0,
            r.tag_classes_spec().len() == 0,
            r.curves_spec().len() == 0,
    {
        ModContext {
            stats: Interner::new(),
            resources: Interner::new(),
            stacks: Interner::new(),
            tags: Interner::new(),
            tag_class_names: Interner::new(),
            params: Interner::new(),
            events: Interner::new(),
            buff_names: Interner::new(),
            curve_names: Interner::new(),
            damage_types: Interner::new(),
            dims: Interner::new(),
            ability_names: Interner::new(),
            talent_names: Interner::new(),
            handlers: Interner::new(),
            abilities: Vec::new(),
            talents: Vec::new(),
            buffs: Vec::new(),
            tag_classes: Vec::new(),
            curves: Vec::new(),
        }
    }

    /// Whether `name` can be interned in table `t`: it is there already, or the
    /// family still has a raw index left to give it. A context never hands out
    /// a handle its family cannot represent, so this is asked before interning.
    pub fn has_room(&self, t: NameTable, name: &str) -> (r: bool)
        ensures
            r == (self.names(t).contains(name@) || self.names(t).len() <= family_limit(t)),
    {
        match t {
            NameTable::Stats => self.stats.has_room(name),
            NameTable::Resources => self.resources.has_room(name),
            NameTable::Stacks => self.stacks.has_room(name),
            NameTable::Tags => self.tags.has_room(name),
            NameTable::TagClasses => self.tag_class_names.has_room(name),
            NameTable::Params => self.params.has_room(name),
            NameTable::Events => self.events.has_room(name),
            NameTable::Buffs => self.buff_names.has_room(name),
            NameTable::Curves => self.curve_names.has_room(name),
            NameTable::DamageTypes => self.damage_types.has_room(name),
            NameTable::Dims => self.dims.has_room(name),
            NameTable::Abilities => self.ability_names.has_room(name),
            NameTable::Talents => self.talent_names.has_room(name),
            NameTable::Handlers => self.handlers.has_room(name),
        }
    }

    /// Intern a stat name, returning its handle: the same name always
    /// gives the same handle, and a new name takes the next raw index.
    pub fn stat(&mut self, name: &str) -> (r: StatId)
        requires
            old(self).wf(),
            old(self).names(NameTable::Stats).contains(name@) || old(self).names(NameTable::Stats).len() <= StatId::max_raw_spec(),
        ensures
            final(self).wf(),
            final(self).names(NameTable::Stats) == interned(old(self).names(NameTable::Stats), name@),
            r.0 == index_of(final(self).names(NameTable::Stats), name@),
            forall|u: NameTable| u != NameTable::Stats ==> final(self).names(u) == old(self).names(u),
            final(self).abilities_spec() == old(self).abilities_spec(),
            final(self).talents_spec() == old(self).talents_spec(),
            final(self).buffs_spec() == old(self).buffs_spec(),
            final(self).tag_classes_spec() == old(self).tag_classes_spec(),
            final(self).curves_spec() == old(self).curves_spec(),
    {
        self.stats.intern(name)
    }

    /// Intern a resource name, returning its handle: the same name always
    /// gives the same handle, and a new name takes the next raw index.
    pub fn resource(&mut self, name: &str) -> (r: ResourceId)
        requires
            old(self).wf(),
            old(self).names(NameTable::Resources).contains(name@) || old(self).names(NameTable::Resources).len() <= ResourceId::max_raw_spec(),
        ensures
            final(self).wf(),
            final(self).names(NameTable::Resources) == interned(old(self).names(NameTable::Resources), name@),
            r.0 == index_of(final(self).names(NameTable::Resources), name@),
            forall|u: NameTable| u != NameTable::Resources ==> final(self).names(u) == old(self).names(u),
            final(self).abilities_spec() == old(self).abilities_spec(),
            final(self).talents_spec() == old(self).talents_spec(),
            final(self).buffs_spec() == old(self).buffs_spec(),
            final(self).tag_classes_spec() == old(self).tag_classes_spec(),
            final(self).curves_spec() == old(self).curves_spec(),
    {
        self.resources.intern(name)
    }

    /// Intern a stack name, returning its handle: the same name always
    /// gives the same handle, and a new name takes the next raw index.
    pub fn stack(&mut self, name: &str) -> (r: StackId)
        requires
            old(self).wf(),
            old(self).names(NameTable::Stacks).contains(name@) || old(self).names(NameTable::Stacks).len() <= StackId::max_raw_spec(),
        ensures
            final(self).wf(),
            final(self).names(NameTable::Stacks) == interned(old(self).names(NameTable::Stacks), name@),
            r.0 == index_of(final(self).names(NameTable::Stacks), name@),
            forall|u: NameTable| u != NameTable::Stacks ==> final(self).names(u) == old(self).names(u),
            final(self).abilities_spec() == old(self).abilities_spec(),
            final(self).talents_spec() == old(self).talents_spec(),
            final(self).buffs_spec() == old(self).buffs_spec(),
            final(self).tag_classes_spec() == old(self).tag_classes_spec(),
            final(self).curves_spec() == old(self).curves_spec(),
    {
        self.stacks.intern(name)
    }

    /// Intern a tag name, returning its handle: the same name always
    /// gives the same handle, and a new name takes the next raw index.
    pub fn tag(&mut self, name: &str) -> (r: TagId)
        requires
            old(self).wf(),
            old(self).names(NameTable::Tags).contains(name@) || old(self).names(NameTable::Tags).len() <= TagId::max_raw_spec(),
        ensures
            final(self).wf(),
            final(self).names(NameTable::Tags) == interned(old(self).names(NameTable::Tags), name@),
            r.0 == index_of(final(self).names(NameTable::Tags), name@),
            forall|u: NameTable| u != NameTable::Tags ==> final(self).names(u) == old(self).names(u),
            final(self).abilities_spec() == old(self).abilities_spec(),
            final(self).talents_spec() == old(self).talents_spec(),
            final(self).buffs_spec() == old(self).buffs_spec(),
            final(self).tag_classes_spec() == old(self).tag_classes_spec(),
            final(self).curves_spec() == old(self).curves_spec(),
    {
        self.tags.intern(name)
    }

    /// Intern a tag class name, returning its handle: the same name always
    /// gives the same handle, and a new name takes the next raw index.
    pub fn tag_class(&mut self, name: &str) -> (r: TagClassId)
        requires
            old(self).wf(),
            old(self).names(NameTable::TagClasses).contains(name@) || old(self).names(NameTable::TagClasses).len() <= TagClassId::max_raw_spec(),
        ensures
            final(self).wf(),
            final(self).names(NameTable::TagClasses) == interned(old(self).names(NameTable::TagClasses), name@),
            r.0 == index_of(final(self).names(NameTable::TagClasses), name@),
            forall|u: NameTable| u != NameTable::TagClasses ==> final(self).names(u) == old(self).names(u),
            final(self).abilities_spec() == old(self).abilities_spec(),
            final(self).talents_spec() == old(self).talents_spec(),
            final(self).buffs_spec() == old(self).buffs_spec(),
            final(self).tag_classes_spec() == old(self).tag_classes_spec(),
            final(self).curves_spec() == old(self).curves_spec(),
    {
        self.tag_class_names.intern(name)
    }

    /// Intern a param name, returning its handle: the same name always
    /// gives the same handle, and a new name takes the next raw index.
    pub fn param(&mut self, name: &str) -> (r: ParamId)
        requires
            old(self).wf(),
            old(self).names(NameTable::Params).contains(name@) || old(self).names(NameTable::Params).len() <= ParamId::max_raw_spec(),
        ensures
            final(self).wf(),
            final(self).names(NameTable::Params) == interned(old(self).names(NameTable::Params), name@),
            r.0 == index_of(final(self).names(NameTable::Params), name@),
            forall|u: NameTable| u != NameTable::Params ==> final(self).names(u) == old(self).names(u),
            final(self).abilities_spec() == old(self).abilities_spec(),
            final(self).talents_spec() == old(self).talents_spec(),
            final(self).buffs_spec() == old(self).buffs_spec(),
            final(self).tag_classes_spec() == old(self).tag_classes_spec(),
            final(self).curves_spec() == old(self).curves_spec(),
    {
        self.params.intern(name)
    }

    /// Intern a event name, returning its handle: the same name always
    /// gives the same handle, and a new name takes the next raw index.
    pub fn event(&mut self, name: &str) -> (r: EventId)
        requires
            old(self).wf(),
            old(self).names(NameTable::Events).contains(name@) || old(self).names(NameTable::Events).len() <= EventId::max_raw_spec(),
        ensures
            final(self).wf(),
            final(self).names(NameTable::Events) == interned(old(self).names(NameTable::Events), name@),
            r.0 == index_of(final(self).names(NameTable::Events), name@),
            forall|u: NameTable| u != NameTable::Events ==> final(self).names(u) == old(self).names(u),
            final(self).abilities_spec() == old(self).abilities_spec(),
            final(self).talents_spec() == old(self).talents_spec(),
            final(self).buffs_spec() == old(self).buffs_spec(),
            final(self).tag_classes_spec() == old(self).tag_classes_spec(),
            final(self).curves_spec() == old(self).curves_spec(),
    {
        self.events.intern(name)
    }

    /// Intern a damage type name, returning its handle: the same name always
    /// gives the same handle, and a new name takes the next raw index.
    pub fn damage_type(&mut self, name: &str) -> (r: DamageTypeId)
        requires
            old(self).wf(),
            old(self).names(NameTable::DamageTypes).contains(name@) || old(self).names(NameTable::DamageTypes).len() <= DamageTypeId::max_raw_spec(),
        ensures
            final(self).wf(),
            final(self).names(NameTable::DamageTypes) == interned(old(self).names(NameTable::DamageTypes), name@),
            r.0 == index_of(final(self).names(NameTable::DamageTypes), name@),
            forall|u: NameTable| u != NameTable::DamageTypes ==> final(self).names(u) == old(self).names(u),
            final(self).abilities_spec() == old(self).abilities_spec(),
            final(self).talents_spec() == old(self).talents_spec(),
            final(self).buffs_spec() == old(self).buffs_spec(),
            final(self).tag_classes_spec() == old(self).tag_classes_spec(),
            final(self).curves_spec() == old(self).curves_spec(),
    {
        self.damage_types.intern(name)
    }

    /// Intern a dim name, returning its handle: the same name always
    /// gives the same handle, and a new name takes the next raw index.
    pub fn dim(&mut self, name: &str) -> (r: DimId)
        requires
            old(self).wf(),
            old(self).names(NameTable::Dims).contains(name@) || old(self).names(NameTable::Dims).len() <= DimId::max_raw_spec(),
        ensures
            final(self).wf(),
            final(self).names(NameTable::Dims) == interned(old(self).names(NameTable::Dims), name@),
            r.0 == index_of(final(self).names(NameTable::Dims), name@),
            forall|u: NameTable| u != NameTable::Dims ==> final(self).names(u) == old(self).names(u),
            final(self).abilities_spec() == old(self).abilities_spec(),
            final(self).talents_spec() == old(self).talents_spec(),
            final(self).buffs_spec() == old(self).buffs_spec(),
            final(self).tag_classes_spec() == old(self).tag_classes_spec(),
            final(self).curves_spec() == old(self).curves_spec(),
    {
        self.dims.intern(name)
    }

    /// Intern a handler name, returning its handle: the same name always
    /// gives the same handle, and a new name takes the next raw index.
    pub fn handler(&mut self, name: &str) -> (r: HandlerId)
        requires
            old(self).wf(),
            old(self).names(NameTable::Handlers).contains(name@) || old(self).names(NameTable::Handlers).len() <= HandlerId::max_raw_spec(),
        ensures
            final(self).wf(),
            final(self).names(NameTable::Handlers) == interned(old(self).names(NameTable::Handlers), name@),
            r.0 == index_of(final(self).names(NameTable::Handlers), name@),
            forall|u: NameTable| u != NameTable::Handlers ==> final(self).names(u) == old(self).names(u),
            final(self).abilities_spec() == old(self).abilities_spec(),
            final(self).talents_spec() == old(self).talents_spec(),
            final(self).buffs_spec() == old(self).buffs_spec(),
            final(self).tag_classes_spec() == old(self).tag_classes_spec(),
            final(self).curves_spec() == old(self).curves_spec(),
    {
        self.handlers.intern(name)
    }

    /// The engine-reserved `cooldown` parameter, interned under exactly its
    /// reserved name: the same handle `param` gives that name.
    pub fn cooldown_param(&mut self) -> (r: ParamId)
        requires
            old(self).wf(),
            old(self).names(NameTable::Params).contains(crate::params::COOLDOWN@)
                || old(self).names(NameTable::Params).len() <= ParamId::max_raw_spec(),
        ensures
            final(self).wf(),
            final(self).names(NameTable::Params) == interned(old(self).names(NameTable::Params), crate::params::COOLDOWN@),
            r.0 == index_of(final(self).names(NameTable::Params), crate::params::COOLDOWN@),
            forall|u: NameTable| u != NameTable::Params ==> final(self).names(u) == old(self).names(u),
            final(self).abilities_spec() == old(self).abilities_spec(),
            final(self).talents_spec() == old(self).talents_spec(),
            final(self).buffs_spec() == old(self).buffs_spec(),
            final(self).tag_classes_spec() == old(self).tag_classes_spec(),
            final(self).curves_spec() == old(self).curves_spec(),
    {
        self.param(crate::params::COOLDOWN)
    }

    /// The engine-reserved `range` parameter, interned under exactly its
    /// reserved name: the same handle `param` gives that name.
    pub fn range_param(&mut self) -> (r: ParamId)
        requires
            old(self).wf(),
            old(self).names(NameTable::Params).contains(crate::params::RANGE@)
                || old(self).names(NameTable::Params).len() <= ParamId::max_raw_spec(),
        ensures
            final(self).wf(),
            final(self).names(NameTable::Params) == interned(old(self).names(NameTable::Params), crate::params::RANGE@),
            r.0 == index_of(final(self).names(NameTable::Params), crate::params::RANGE@),
            forall|u: NameTable| u != NameTable::Params ==> final(self).names(u) == old(self).names(u),
            final(self).abilities_spec() == old(self).abilities_spec(),
            final(self).talents_spec() == old(self).talents_spec(),
            final(self).buffs_spec() == old(self).buffs_spec(),
            final(self).tag_classes_spec() == old(self).tag_classes_spec(),
            final(self).curves_spec() == old(self).curves_spec(),
    {
        self.param(crate::params::RANGE)
    }

    /// The engine-reserved `radius` parameter, interned under exactly its
    /// reserved name: the same handle `param` gives that name.
    pub fn radius_param(&mut self) -> (r: ParamId)
        requires
            old(self).wf(),
            old(self).names(NameTable::Params).contains(crate::params::RADIUS@)
                || old(self).names(NameTable::Params).len() <= ParamId::max_raw_spec(),
        ensures
            final(self).wf(),
            final(self).names(NameTable::Params) == interned(old(self).names(NameTable::Params), crate::params::RADIUS@),
            r.0 == index_of(final(self).names(NameTable::Params), crate::params::RADIUS@),
            forall|u: NameTable| u != NameTable::Params ==> final(self).names(u) == old(self).names(u),
            final(self).abilities_spec() == old(self).abilities_spec(),
            final(self).talents_spec() == old(self).talents_spec(),
            final(self).buffs_spec() == old(self).buffs_spec(),
            final(self).tag_classes_spec() == old(self).tag_classes_spec(),
            final(self).curves_spec() == old(self).curves_spec(),
    {
        self.param(crate::params::RADIUS)
    }

    /// The engine-reserved `spread` parameter, interned under exactly its
    /// reserved name: the same handle `param` gives that name.
    pub fn spread_param(&mut self) -> (r: ParamId)
        requires
            old(self).wf(),
            old(self).names(NameTable::Params).contains(crate::params::SPREAD@)
                || old(self).names(NameTable::Params).len() <= ParamId::max_raw_spec(),
        ensures
            final(self).wf(),
            final(self).names(NameTable::Params) == interned(old(self).names(NameTable::Params), crate::params::SPREAD@),
            r.0 == index_of(final(self).names(NameTable::Params), crate::params::SPREAD@),
            forall|u: NameTable| u != NameTable::Params ==> final(self).names(u) == old(self).names(u),
            final(self).abilities_spec() == old(self).abilities_spec(),
            final(self).talents_spec() == old(self).talents_spec(),
            final(self).buffs_spec() == old(self).buffs_spec(),
            final(self).tag_classes_spec() == old(self).tag_classes_spec(),
            final(self).curves_spec() == old(self).curves_spec(),
    {
        self.param(crate::params::SPREAD)
    }

    /// Register that `tag` joins capability class `class`, interning both.
    pub fn register_tag_class(&mut self, tag: &str, class: &str) -> (r: (TagId, TagClassId))
        requires
            old(self).wf(),
            old(self).names(NameTable::Tags).contains(tag@) || old(self).names(NameTable::Tags).len() <= TagId::max_raw_spec(),
            old(self).names(NameTable::TagClasses).contains(class@)
                || old(self).names(NameTable::TagClasses).len() <= TagClassId::max_raw_spec(),
        ensures
            final(self).wf(),
            final(self).names(NameTable::Tags) == interned(old(self).names(NameTable::Tags), tag@),
            final(self).names(NameTable::TagClasses) == interned(old(self).names(NameTable::TagClasses), class@),
            r.0.0 == index_of(final(self).names(NameTable::Tags), tag@),
            r.1.0 == index_of(final(self).names(NameTable::TagClasses), class@),
            final(self).tag_classes_spec() == old(self).tag_classes_spec().push(r),
            forall|u: NameTable| u != NameTable::Tags && u != NameTable::TagClasses ==> final(self).names(u) == old(self).names(u),
            final(self).abilities_spec() == old(self).abilities_spec(),
            final(self).talents_spec() == old(self).talents_spec(),
            final(self).buffs_spec() == old(self).buffs_spec(),
            final(self).curves_spec() == old(self).curves_spec(),
    {
        let t = self.tag(tag);
        let c = self.tag_class(class);
        self.tag_classes.push((t, c));
        (t, c)
    }

    /// Define an ability under a new name: the descriptor is stored with its `id` set
    /// to the handle the name is minted as, at that handle's index.
    pub fn ability(&mut self, name: &str, desc: AbilityDescriptor) -> (r: AbilityId)
        requires
            old(self).wf(),
            !old(self).names(NameTable::Abilities).contains(name@),
            old(self).names(NameTable::Abilities).len() <= AbilityId::max_raw_spec(),
        ensures
            final(self).wf(),
            final(self).names(NameTable::Abilities) == old(self).names(NameTable::Abilities).push(name@),
            r.0 == old(self).names(NameTable::Abilities).len(),
            final(self).abilities_spec().len() == old(self).abilities_spec().len() + 1,
            final(self).abilities_spec().take(old(self).abilities_spec().len() as int) == old(self).abilities_spec(),
            final(self).abilities_spec().last() == (AbilityDescriptor { id: r, ..desc }),
            forall|u: NameTable| u != NameTable::Abilities ==> final(self).names(u) == old(self).names(u),
            final(self).talents_spec() == old(self).talents_spec(),
            final(self).buffs_spec() == old(self).buffs_spec(),
            final(self).tag_classes_spec() == old(self).tag_classes_spec(),
            final(self).curves_spec() == old(self).curves_spec(),
    {
        let id = self.ability_names.intern(name);
        proof {
            assert(!old(self).ability_names.view().contains(name@));
            crate::interner::lemma_index_of_distinct(self.ability_names.view(), name@, old(self).ability_names.view().len() as int);
        }
        let ghost before = self.abilities@;
        let mut d = desc; d.id = id; self.abilities.push(d);
        proof {
            assert(self.abilities@.take(before.len() as int) =~= before);
        }
        id
    }

    /// Define a talent under a new name, stored at its handle's index with `id`
    /// set to that handle.
    pub fn talent(&mut self, name: &str, desc: TalentDescriptor) -> (r: TalentId)
        requires
            old(self).wf(),
            !old(self).names(NameTable::Talents).contains(name@),
            old(self).names(NameTable::Talents).len() <= TalentId::max_raw_spec(),
        ensures
            final(self).wf(),
            final(self).names(NameTable::Talents) == old(self).names(NameTable::Talents).push(name@),
            r.0 == old(self).names(NameTable::Talents).len(),
            final(self).talents_spec().len() == old(self).talents_spec().len() + 1,
            final(self).talents_spec().take(old(self).talents_spec().len() as int) == old(self).talents_spec(),
            final(self).talents_spec().last() == (TalentDescriptor { id: r, ..desc }),
            forall|u: NameTable| u != NameTable::Talents ==> final(self).names(u) == old(self).names(u),
            final(self).abilities_spec() == old(self).abilities_spec(),
            final(self).buffs_spec() == old(self).buffs_spec(),
            final(self).tag_classes_spec() == old(self).tag_classes_spec(),
            final(self).curves_spec() == old(self).curves_spec(),
    {
        let id = self.talent_names.intern(name);
        proof {
            assert(!old(self).talent_names.view().contains(name@));
            crate::interner::lemma_index_of_distinct(self.talent_names.view(), name@, old(self).talent_names.view().len() as int);
        }
        let ghost before = self.talents@;
        let mut d = desc; d.id = id; self.talents.push(d);
        proof {
            assert(self.talents@.take(before.len() as int) =~= before);
        }
        id
    }

    /// Define a buff under a new name, stored at its handle's index with `id` set
    /// to that handle.
    pub fn buff(&mut self, name: &str, spec: BuffSpec) -> (r: BuffId)
        requires
            old(self).wf(),
            !old(self).names(NameTable::Buffs).contains(name@),
            old(self).names(NameTable::Buffs).len() <= BuffId::max_raw_spec(),
        ensures
            final(self).wf(),
            final(self).names(NameTable::Buffs) == old(self).names(NameTable::Buffs).push(name@),
            r.0 == old(self).names(NameTable::Buffs).len(),
            final(self).buffs_spec().len() == old(self).buffs_spec().len() + 1,
            final(self).buffs_spec().take(old(self).buffs_spec().len() as int) == old(self).buffs_spec(),
            final(self).buffs_spec().last() == (BuffSpec { id: r, ..spec }),
            forall|u: NameTable| u != NameTable::Buffs ==> final(self).names(u) == old(self).names(u),
            final(self).abilities_spec() == old(self).abilities_spec(),
            final(self).talents_spec() == old(self).talents_spec(),
            final(self).tag_classes_spec() == old(self).tag_classes_spec(),
            final(self).curves_spec() == old(self).curves_spec(),
    {
        let id = self.buff_names.intern(name);
        proof {
            assert(!old(self).buff_names.view().contains(name@));
            crate::interner::lemma_index_of_distinct(self.buff_names.view(), name@, old(self).buff_names.view().len() as int);
        }
        let ghost before = self.buffs@;
        let mut d = spec; d.id = id; self.buffs.push(d);
        proof {
            assert(self.buffs@.take(before.len() as int) =~= before);
        }
        id
    }

    /// Define a lookup curve under a new name, stored at its handle's index.
    pub fn curve(&mut self, name: &str, curve: Curve) -> (r: CurveId)
        requires
            old(self).wf(),
            !old(self).names(NameTable::Curves).contains(name@),
            old(self).names(NameTable::Curves).len() <= CurveId::max_raw_spec(),
        ensures
            final(self).wf(),
            final(self).names(NameTable::Curves) == old(self).names(NameTable::Curves).push(name@),
            r.0 == old(self).names(NameTable::Curves).len(),
            final(self).curves_spec().len() == old(self).curves_spec().len() + 1,
            final(self).curves_spec().take(old(self).curves_spec().len() as int) == old(self).curves_spec(),
            final(self).curves_spec().last() == curve,
            forall|u: NameTable| u != NameTable::Curves ==> final(self).names(u) == old(self).names(u),
            final(self).abilities_spec() == old(self).abilities_spec(),
            final(self).talents_spec() == old(self).talents_spec(),
            final(self).buffs_spec() == old(self).buffs_spec(),
            final(self).tag_classes_spec() == old(self).tag_classes_spec(),
    {
        let id = self.curve_names.intern(name);
        proof {
            assert(!old(self).curve_names.view().contains(name@));
            crate::interner::lemma_index_of_distinct(self.curve_names.view(), name@, old(self).curve_names.view().len() as int);
        }
        let ghost before = self.curves@;
        self.curves.push(curve);
        proof {
            assert(self.curves@.take(before.len() as int) =~= before);
        }
        id
    }

    /// The ABI version this context builds registrations for.
    pub fn abi(&self) -> (r: Version)
        ensures
            r == abi_version_spec(),
    {
        abi_version()
    }

    /// Everything registered, as the bundle the host decodes: each name table
    /// in raw-index order, the descriptors in definition order, so the
    /// descriptor at index `i` is the one defined under the table's name `i`.
    pub fn finish(self) -> (r: Registration)
        requires
            self.wf(),
        ensures
            r.abi == abi_version_spec(),
            r.names.stats@.map_values(|s: String| s@) == self.names(NameTable::Stats),
            r.names.resources@.map_values(|s: String| s@) == self.names(NameTable::Resources),
            r.names.stacks@.map_values(|s: String| s@) == self.names(NameTable::Stacks),
            r.names.tags@.map_values(|s: String| s@) == self.names(NameTable::Tags),
            r.names.tag_classes@.map_values(|s: String| s@) == self.names(NameTable::TagClasses),
            r.names.params@.map_values(|s: String| s@) == self.names(NameTable::Params),
            r.names.events@.map_values(|s: String| s@) == self.names(NameTable::Events),
            r.names.buffs@.map_values(|s: String| s@) == self.names(NameTable::Buffs),
            r.names.curves@.map_values(|s: String| s@) == self.names(NameTable::Curves),
            r.names.damage_types@.map_values(|s: String| s@) == self.names(NameTable::DamageTypes),
            r.names.dims@.map_values(|s: String| s@) == self.names(NameTable::Dims),
            r.names.abilities@.map_values(|s: String| s@) == self.names(NameTable::Abilities),
            r.names.talents@.map_values(|s: String| s@) == self.names(NameTable::Talents),
            r.names.handlers@.map_values(|s: String| s@) == self.names(NameTable::Handlers),
            r.abilities@ == self.abilities_spec(),
            r.talents@ == self.talents_spec(),
            r.buffs@ == self.buffs_spec(),
            r.tag_classes@ == self.tag_classes_spec(),
            r.curves@ == self.curves_spec(),
            r.abilities@.len() == r.names.abilities@.len() && ids_aligned_abilities(r.abilities@),
            r.talents@.len() == r.names.talents@.len() && ids_aligned_talents(r.talents@),
            r.buffs@.len() == r.names.buffs@.len() && ids_aligned_buffs(r.buffs@),
            r.curves@.len() == r.names.curves@.len(),
    {
        Registration {
            abi: abi_version(),
            names: Names {
                stats: table(&self.stats),
                resources: table(&self.resources),
                stacks: table(&self.stacks),
                tags: table(&self.tags),
                tag_classes: table(&self.tag_class_names),
                params: table(&self.params),
                events: table(&self.events),
                buffs: table(&self.buff_names),
                curves: table(&self.curve_names),
                damage_types: table(&self.damage_types),
                dims: table(&self.dims),
                abilities: table(&self.ability_names),
                talents: table(&self.talent_names),
                handlers: table(&self.handlers),
            },
            abilities: self.abilities,
            talents: self.talents,
            buffs: self.buffs,
            tag_classes: self.tag_classes,
            curves: self.curves,
        }
    }
}

impl Default for ModContext {
    fn default() -> (r: Self)
        ensures
            r.wf(),
            forall|t: NameTable| r.names(t).len() == 0,
    {
        ModContext::new()
    }
}


/// Registering names that are all new, one call after another, lists them in
/// the order they were registered: `states` are the context before and after
/// each call, each call interning the next of `names` into table `t` (what
/// [`ModContext::stat`] and the other registration calls ensure). Starting from
/// an empty table, the table ends as `names` itself, the `i`-th name at raw
/// index `i` — which [`ModContext::finish`] hands out as that table.
pub proof fn law_registrations_list_in_order(states: Seq<ModContext>, t: NameTable, names: Seq<Seq<char>>)
    requires
        states.len() == names.len() + 1,
        states[0].names(t).len() == 0,
        forall|i: int| 0 <= i < names.len() ==> #[trigger] states[i + 1].names(t) == interned(states[i].names(t), names[i]),
        distinct_names(names),
    ensures
        states.last().names(t) == names,
        forall|i: int| 0 <= i < names.len() ==> index_of(states.last().names(t), #[trigger] names[i]) == i,
{
    let empty = Seq::<Seq<char>>::empty();
    assert(states[0].names(t) =~= empty);
    assert forall|k: int| 0 <= k <= names.len() implies #[trigger] states[k].names(t) == interned_all(empty, names.take(k)) by {
        lemma_states_follow(states, t, names, k);
    }
    assert(names.take(names.len() as int) =~= names);
    assert(empty + names =~= names);
    law_new_names_take_the_next_indices(empty, names);
}

proof fn lemma_states_follow(states: Seq<ModContext>, t: NameTable, names: Seq<Seq<char>>, k: int)
    requires
        states.len() == names.len() + 1,
        states[0].names(t) == Seq::<Seq<char>>::empty(),
        forall|i: int| 0 <= i < names.len() ==> #[trigger] states[i + 1].names(t) == interned(states[i].names(t), names[i]),
        0 <= k <= names.len(),
    ensures
        states[k].names(t) == interned_all(Seq::<Seq<char>>::empty(), names.take(k)),
    decreases k,
{
    if k > 0 {
        lemma_states_follow(states, t, names, k - 1);
        assert(names.take(k).drop_last() =~= names.take(k - 1));
        assert(names.take(k).last() == names[k - 1]);
        assert(states[(k - 1) + 1].names(t) == interned(states[k - 1].names(t), names[k - 1]));
    } else {
        assert(names.take(0) =~= Seq::<Seq<char>>::empty());
    }
}

} // verus!
