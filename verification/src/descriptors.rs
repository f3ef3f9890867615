//! `Registration` — the top-level bundle a mod emits and the host decodes.
//!
//! A mod ships handle-based descriptors indexed in its own local id space,
//! together with the name tables that gave those handles meaning. At adoption
//! the host re-interns every name into its global interner, building a
//! local-to-global map, and rewrites the descriptors' handles with the id-remap
//! walk — so runtime never sees a string.

use vstd::prelude::*;

use crate::abilities::AbilityDescriptor;
use crate::behaviors::BuffSpec;
use crate::ids::{TagClassId, TagId};
use crate::manifest::Version;
use crate::scalar::Scalar;
use crate::talents::TalentDescriptor;

verus! {

/// The `raw index -> stable name` table for every interned id family a mod may
/// reference. Each table is dense and mirrors one interner's output: index `i`
/// is the name the mod interned as raw handle `i`. `Slot` is absent: slots are
/// never interned.
#[derive(Clone, PartialEq, Eq, Debug, Default)]
pub struct Names {
    pub stats: Vec<String>,
    pub resources: Vec<String>,
    pub stacks: Vec<String>,
    pub tags: Vec<String>,
    pub tag_classes: Vec<String>,
    pub params: Vec<String>,
    pub events: Vec<String>,
    pub buffs: Vec<String>,
    pub curves: Vec<String>,
    pub damage_types: Vec<String>,
    pub dims: Vec<String>,
    pub abilities: Vec<String>,
    pub talents: Vec<String>,
    pub handlers: Vec<String>,
}

/// A piecewise lookup curve referenced by `Value::Curve`: control points are
/// `[input, output]` pairs.
#[derive(Clone, PartialEq, Debug, Default)]
pub struct Curve {
    pub points: Vec<[Scalar; 2]>,
}

/// Everything a mod registers, in one bundle. Descriptor collections are
/// indexed by the mod's local handle raw index.
#[derive(Clone, PartialEq, Debug)]
pub struct Registration {
    /// The ABI the mod was built against; the host rejects a major mismatch.
    pub abi: Version,
    /// Stable names for every interned handle the descriptors reference.
    pub names: Names,
    /// Ability definitions, indexed by local `AbilityId`.
    pub abilities: Vec<AbilityDescriptor>,
    /// Talent definitions, indexed by local `TalentId`.
    pub talents: Vec<TalentDescriptor>,
    /// Buff/status definitions, indexed by local `BuffId`.
    pub buffs: Vec<BuffSpec>,
    /// Tag → capability-class registrations (a tag may join several classes).
    pub tag_classes: Vec<(TagId, TagClassId)>,
    /// Lookup curves, indexed by local `CurveId`.
    pub curves: Vec<Curve>,
}

} // verus!
