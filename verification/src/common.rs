//! Shared leaf types used across the effect ISA — geometry, directions,
//! targeting, and the numeric-op vocabulary. Points are plain arrays of
//! [`Scalar`]s so the ABI stays free of any math crate.

use vstd::prelude::*;

use crate::ids::TagId;
use crate::scalar::Scalar;

verus! {

/// A position in world space.
pub type Point3 = [Scalar; 3];

/// A generic direction in the targeting vocabulary.
#[derive(Clone, Copy, PartialEq, Debug)]
pub enum Direction {
    Forward,
    Backward,
    FromCaster,
    TowardCaster,
    ToTarget,
    Up,
    Custom(Point3),
}

/// Whom a target query keeps, relative to the caster's faction.
#[derive(Clone, Copy, PartialEq, Eq, Structural, Hash, Debug)]
pub enum Affiliation {
    Enemies,
    Allies,
    All,
}

/// Narrows a resolved target set. Purely declarative; the engine's targeting
/// systems apply it generically.
#[derive(PartialEq, Debug)]
pub struct TargetFilter {
    pub affiliation: Affiliation,
    pub require_tags: Vec<TagId>,
    pub exclude_tags: Vec<TagId>,
    pub include_dead: bool,
}

impl Clone for TargetFilter {
    fn clone(&self) -> (r: Self)
        ensures
            r.affiliation == self.affiliation,
            r.require_tags@ == self.require_tags@,
            r.exclude_tags@ == self.exclude_tags@,
            r.include_dead == self.include_dead,
    {
        let require_tags = self.require_tags.clone();
        let exclude_tags = self.exclude_tags.clone();
        assert(require_tags@ =~= self.require_tags@);
        assert(exclude_tags@ =~= self.exclude_tags@);
        TargetFilter { affiliation: self.affiliation, require_tags, exclude_tags, include_dead: self.include_dead }
    }
}

/// Whom a leaf acts on, relative to the resolution context. Defaults to the
/// current target after any `Retarget` expansion.
#[derive(Clone, Copy, PartialEq, Debug)]
pub enum ImpactTarget {
    Caster,
    PrimaryTarget,
    ResolvedTarget,
    Source,
    AtPoint(Point3),
}

impl Default for ImpactTarget {
    fn default() -> (r: Self)
        ensures
            r == ImpactTarget::ResolvedTarget,
    {
        ImpactTarget::ResolvedTarget
    }
}

/// How a numeric adjustment combines with the current value — shared by pool
/// adjustments and talent parameter patches.
#[derive(Clone, Copy, PartialEq, Eq, Structural, Hash, Debug)]
pub enum NumOp {
    Assign,
    Add,
    Sub,
    Mul,
}

} // verus!
