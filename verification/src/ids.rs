//! Interned handle types for the effect ISA (runtime form).
//!
//! Authoring (the ABI on the wire and in mod source) uses stable strings, which
//! are portable and human-readable. The engine interns those strings to these
//! compact newtype handles at adoption (see [`crate::interner`]). Handles are
//! dense, array-indexable indices.
//!
//! Meanings are mod convention — the engine never hardcodes a specific id.

use vstd::prelude::*;

verus! {

/// A compact interned handle backed by a raw integer index.
///
/// Implemented by every name-interned id family so one generic
/// [`crate::interner::Interner`] can mint any of them. The contract:
/// `H::from_raw(raw).raw() == raw` for every `raw <= H::max_raw()`.
pub trait Handle: Copy + Sized {
    /// Largest raw index this family can represent (its capacity minus one).
    spec fn max_raw_spec() -> u32;

    /// The raw interner index behind this handle.
    spec fn raw_spec(self) -> u32;

    /// Largest raw index this family can represent.
    fn max_raw() -> (r: u32)
        ensures
            r == Self::max_raw_spec(),
    ;

    /// Build a handle from a raw interner index, which must not exceed
    /// [`Self::max_raw`]; the interner guarantees this by construction.
    fn from_raw(raw: u32) -> (h: Self)
        requires
            raw <= Self::max_raw_spec(),
        ensures
            h.raw_spec() == raw,
    ;

    /// The raw interner index behind this handle.
    fn raw(self) -> (r: u32)
        ensures
            r == self.raw_spec(),
            r <= Self::max_raw_spec(),
    ;

    /// A handle is its raw index: two handles with the same index are the same
    /// handle.
    proof fn lemma_raw_determines(a: Self, b: Self)
        requires
            a.raw_spec() == b.raw_spec(),
        ensures
            a == b,
    ;
}

/// A generic unit stat (movement speed, an attack stat, …) — mod-defined.
#[derive(Clone, Copy, PartialEq, Eq, Structural, PartialOrd, Ord, Hash, Debug)]
pub struct StatId(pub u16);

/// A bounded numeric resource pool (energy, mana-like, …) — mod-defined.
#[derive(Clone, Copy, PartialEq, Eq, Structural, PartialOrd, Ord, Hash, Debug)]
pub struct ResourceId(pub u16);

/// A named stack counter (combo points, charges of a mechanic) — mod-defined.
#[derive(Clone, Copy, PartialEq, Eq, Structural, PartialOrd, Ord, Hash, Debug)]
pub struct StackId(pub u16);

/// A binary status tag (rooted, silenced, …) — mod-defined.
#[derive(Clone, Copy, PartialEq, Eq, Structural, PartialOrd, Ord, Hash, Debug)]
pub struct TagId(pub u16);

/// A capability class a tag registers into (`blocks_move`, …) — mod-defined.
#[derive(Clone, Copy, PartialEq, Eq, Structural, PartialOrd, Ord, Hash, Debug)]
pub struct TagClassId(pub u16);

/// A named ability/descriptor parameter (cooldown, radius, …) — mod-defined.
#[derive(Clone, Copy, PartialEq, Eq, Structural, PartialOrd, Ord, Hash, Debug)]
pub struct ParamId(pub u16);

/// A lifecycle / custom event kind (for `Emit` and reactions).
#[derive(Clone, Copy, PartialEq, Eq, Structural, PartialOrd, Ord, Hash, Debug)]
pub struct EventId(pub u16);

/// A buff/status-effect definition.
#[derive(Clone, Copy, PartialEq, Eq, Structural, PartialOrd, Ord, Hash, Debug)]
pub struct BuffId(pub u16);

/// A lookup curve (e.g. level-scaling table) referenced by `Value::Curve`.
#[derive(Clone, Copy, PartialEq, Eq, Structural, PartialOrd, Ord, Hash, Debug)]
pub struct CurveId(pub u16);

/// A damage type / school used by mitigation policy — mod-defined.
#[derive(Clone, Copy, PartialEq, Eq, Structural, PartialOrd, Ord, Hash, Debug)]
pub struct DamageTypeId(pub u16);

/// A simulation dimension / sub-world an entity belongs to.
#[derive(Clone, Copy, PartialEq, Eq, Structural, PartialOrd, Ord, Hash, Debug)]
pub struct DimId(pub u16);

/// A mod-defined animation state (`AnimState::Custom`).
#[derive(Clone, Copy, PartialEq, Eq, Structural, PartialOrd, Ord, Hash, Debug)]
pub struct AnimStateId(pub u16);

/// A walkable region a map mod ships.
#[derive(Clone, Copy, PartialEq, Eq, Structural, PartialOrd, Ord, Hash, Debug)]
pub struct NavMeshId(pub u16);

/// An ability definition.
#[derive(Clone, Copy, PartialEq, Eq, Structural, PartialOrd, Ord, Hash, Debug)]
pub struct AbilityId(pub u32);

/// A talent definition.
#[derive(Clone, Copy, PartialEq, Eq, Structural, PartialOrd, Ord, Hash, Debug)]
pub struct TalentId(pub u32);

/// A `Custom` escape-hatch handler exported by a wasm mod.
#[derive(Clone, Copy, PartialEq, Eq, Structural, PartialOrd, Ord, Hash, Debug)]
pub struct HandlerId(pub u32);

/// A spawnable unit definition (a hero, creep, structure — mod-defined).
#[derive(Clone, Copy, PartialEq, Eq, Structural, PartialOrd, Ord, Hash, Debug)]
pub struct UnitId(pub u32);

/// A generic ability slot index. Not name-interned — slots are a small fixed
/// space whose meanings are pure mod convention.
#[derive(Clone, Copy, PartialEq, Eq, Structural, PartialOrd, Ord, Hash, Debug)]
pub struct Slot(pub u8);

impl Handle for StatId {
    open spec fn max_raw_spec() -> u32 {
        0xffff
    }

    open spec fn raw_spec(self) -> u32 {
        self.0 as u32
    }

    fn max_raw() -> (r: u32) {
        0xffff
    }

    fn from_raw(raw: u32) -> (h: Self) {
        StatId(raw as u16)
    }

    fn raw(self) -> (r: u32) {
        self.0 as u32
    }

    proof fn lemma_raw_determines(a: Self, b: Self) {
    }
}

impl Handle for ResourceId {
    open spec fn max_raw_spec() -> u32 {
        0xffff
    }

    open spec fn raw_spec(self) -> u32 {
        self.0 as u32
    }

    fn max_raw() -> (r: u32) {
        0xffff
    }

    fn from_raw(raw: u32) -> (h: Self) {
        ResourceId(raw as u16)
    }

    fn raw(self) -> (r: u32) {
        self.0 as u32
    }

    proof fn lemma_raw_determines(a: Self, b: Self) {
    }
}

impl Handle for StackId {
    open spec fn max_raw_spec() -> u32 {
        0xffff
    }

    open spec fn raw_spec(self) -> u32 {
        self.0 as u32
    }

    fn max_raw() -> (r: u32) {
        0xffff
    }

    fn from_raw(raw: u32) -> (h: Self) {
        StackId(raw as u16)
    }

    fn raw(self) -> (r: u32) {
        self.0 as u32
    }

    proof fn lemma_raw_determines(a: Self, b: Self) {
    }
}

impl Handle for TagId {
    open spec fn max_raw_spec() -> u32 {
        0xffff
    }

    open spec fn raw_spec(self) -> u32 {
        self.0 as u32
    }

    fn max_raw() -> (r: u32) {
        0xffff
    }

    fn from_raw(raw: u32) -> (h: Self) {
        TagId(raw as u16)
    }

    fn raw(self) -> (r: u32) {
        self.0 as u32
    }

    proof fn lemma_raw_determines(a: Self, b: Self) {
    }
}

impl Handle for TagClassId {
    open spec fn max_raw_spec() -> u32 {
        0xffff
    }

    open spec fn raw_spec(self) -> u32 {
        self.0 as u32
    }

    fn max_raw() -> (r: u32) {
        0xffff
    }

    fn from_raw(raw: u32) -> (h: Self) {
        TagClassId(raw as u16)
    }

    fn raw(self) -> (r: u32) {
        self.0 as u32
    }

    proof fn lemma_raw_determines(a: Self, b: Self) {
    }
}

impl Handle for ParamId {
    open spec fn max_raw_spec() -> u32 {
        0xffff
    }

    open spec fn raw_spec(self) -> u32 {
        self.0 as u32
    }

    fn max_raw() -> (r: u32) {
        0xffff
    }

    fn from_raw(raw: u32) -> (h: Self) {
        ParamId(raw as u16)
    }

    fn raw(self) -> (r: u32) {
        self.0 as u32
    }

    proof fn lemma_raw_determines(a: Self, b: Self) {
    }
}

impl Handle for EventId {
    open spec fn max_raw_spec() -> u32 {
        0xffff
    }

    open spec fn raw_spec(self) -> u32 {
        self.0 as u32
    }

    fn max_raw() -> (r: u32) {
        0xffff
    }

    fn from_raw(raw: u32) -> (h: Self) {
        EventId(raw as u16)
    }

    fn raw(self) -> (r: u32) {
        self.0 as u32
    }

    proof fn lemma_raw_determines(a: Self, b: Self) {
    }
}

impl Handle for BuffId {
    open spec fn max_raw_spec() -> u32 {
        0xffff
    }

    open spec fn raw_spec(self) -> u32 {
        self.0 as u32
    }

    fn max_raw() -> (r: u32) {
        0xffff
    }

    fn from_raw(raw: u32) -> (h: Self) {
        BuffId(raw as u16)
    }

    fn raw(self) -> (r: u32) {
        self.0 as u32
    }

    proof fn lemma_raw_determines(a: Self, b: Self) {
    }
}

impl Handle for CurveId {
    open spec fn max_raw_spec() -> u32 {
        0xffff
    }

    open spec fn raw_spec(self) -> u32 {
        self.0 as u32
    }

    fn max_raw() -> (r: u32) {
        0xffff
    }

    fn from_raw(raw: u32) -> (h: Self) {
        CurveId(raw as u16)
    }

    fn raw(self) -> (r: u32) {
        self.0 as u32
    }

    proof fn lemma_raw_determines(a: Self, b: Self) {
    }
}

impl Handle for DamageTypeId {
    open spec fn max_raw_spec() -> u32 {
        0xffff
    }

    open spec fn raw_spec(self) -> u32 {
        self.0 as u32
    }

    fn max_raw() -> (r: u32) {
        0xffff
    }

    fn from_raw(raw: u32) -> (h: Self) {
        DamageTypeId(raw as u16)
    }

    fn raw(self) -> (r: u32) {
        self.0 as u32
    }

    proof fn lemma_raw_determines(a: Self, b: Self) {
    }
}

impl Handle for DimId {
    open spec fn max_raw_spec() -> u32 {
        0xffff
    }

    open spec fn raw_spec(self) -> u32 {
        self.0 as u32
    }

    fn max_raw() -> (r: u32) {
        0xffff
    }

    fn from_raw(raw: u32) -> (h: Self) {
        DimId(raw as u16)
    }

    fn raw(self) -> (r: u32) {
        self.0 as u32
    }

    proof fn lemma_raw_determines(a: Self, b: Self) {
    }
}

impl Handle for AnimStateId {
    open spec fn max_raw_spec() -> u32 {
        0xffff
    }

    open spec fn raw_spec(self) -> u32 {
        self.0 as u32
    }

    fn max_raw() -> (r: u32) {
        0xffff
    }

    fn from_raw(raw: u32) -> (h: Self) {
        AnimStateId(raw as u16)
    }

    fn raw(self) -> (r: u32) {
        self.0 as u32
    }

    proof fn lemma_raw_determines(a: Self, b: Self) {
    }
}

impl Handle for NavMeshId {
    open spec fn max_raw_spec() -> u32 {
        0xffff
    }

    open spec fn raw_spec(self) -> u32 {
        self.0 as u32
    }

    fn max_raw() -> (r: u32) {
        0xffff
    }

    fn from_raw(raw: u32) -> (h: Self) {
        NavMeshId(raw as u16)
    }

    fn raw(self) -> (r: u32) {
        self.0 as u32
    }

    proof fn lemma_raw_determines(a: Self, b: Self) {
    }
}

impl Handle for AbilityId {
    open spec fn max_raw_spec() -> u32 {
        0xffff_ffff
    }

    open spec fn raw_spec(self) -> u32 {
        self.0
    }

    fn max_raw() -> (r: u32) {
        0xffff_ffff
    }

    fn from_raw(raw: u32) -> (h: Self) {
        AbilityId(raw)
    }

    fn raw(self) -> (r: u32) {
        self.0
    }

    proof fn lemma_raw_determines(a: Self, b: Self) {
    }
}

impl Handle for TalentId {
    open spec fn max_raw_spec() -> u32 {
        0xffff_ffff
    }

    open spec fn raw_spec(self) -> u32 {
        self.0
    }

    fn max_raw() -> (r: u32) {
        0xffff_ffff
    }

    fn from_raw(raw: u32) -> (h: Self) {
        TalentId(raw)
    }

    fn raw(self) -> (r: u32) {
        self.0
    }

    proof fn lemma_raw_determines(a: Self, b: Self) {
    }
}

impl Handle for HandlerId {
    open spec fn max_raw_spec() -> u32 {
        0xffff_ffff
    }

    open spec fn raw_spec(self) -> u32 {
        self.0
    }

    fn max_raw() -> (r: u32) {
        0xffff_ffff
    }

    fn from_raw(raw: u32) -> (h: Self) {
        HandlerId(raw)
    }

    fn raw(self) -> (r: u32) {
        self.0
    }

    proof fn lemma_raw_determines(a: Self, b: Self) {
    }
}

impl Handle for UnitId {
    open spec fn max_raw_spec() -> u32 {
        0xffff_ffff
    }

    open spec fn raw_spec(self) -> u32 {
        self.0
    }

    fn max_raw() -> (r: u32) {
        0xffff_ffff
    }

    fn from_raw(raw: u32) -> (h: Self) {
        UnitId(raw)
    }

    fn raw(self) -> (r: u32) {
        self.0
    }

    proof fn lemma_raw_determines(a: Self, b: Self) {
    }
}

} // verus!
