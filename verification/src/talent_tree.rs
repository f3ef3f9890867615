//! `TalentTree` — the structure a unit's talent choices are made within: tiers,
//! each opened at a level and offering mutually exclusive options, one pick per
//! unlocked tier.
//!
//! Unlocking is derived from the level every time it is asked, never latched,
//! so a rewind past a threshold re-locks the tier. A pick names its tier by a
//! `u8`, so a tree longer than [`MAX_TIERS`] has a tail no pick can reach; the
//! accessors here report only the reachable prefix.

use vstd::prelude::*;

use crate::ids::TalentId;

verus! {

/// How many tiers a tree can address: every value of a `u8` index.
pub const MAX_TIERS: usize = 256;

/// Whether a choice already made may be changed.
#[derive(Clone, Copy, PartialEq, Eq, Structural, Hash, Debug)]
pub enum RepickPolicy {
    /// A tier's choice is made once and stands for the rest of the unit's life.
    Locked,
    /// A tier's choice may be replaced by another option from the same tier.
    Free,
}

impl Default for RepickPolicy {
    /// `Locked`: a mod that forgot to declare a policy hands out no free respecs.
    fn default() -> (r: Self)
        ensures
            r == RepickPolicy::Locked,
    {
        RepickPolicy::Locked
    }
}

/// One tier: the level that opens it, and the options it offers.
#[derive(Clone, PartialEq, Eq, Debug, Default)]
pub struct TalentTier {
    /// The unit level at which this tier becomes choosable.
    pub level: u8,
    /// The talents this tier offers, of which a unit may hold at most one.
    pub options: Vec<TalentId>,
    /// Which option this tree suggests, by its index in `options` — a
    /// suggestion the engine never applies.
    pub recommended: Option<u8>,
}

impl TalentTier {
    /// Whether a unit standing at `level` may choose from this tier.
    pub fn unlocked(&self, level: u8) -> (r: bool)
        ensures
            r == (level >= self.level),
    {
        level >= self.level
    }

    /// Whether `talent` is one of this tier's options.
    pub fn offers(&self, talent: TalentId) -> (r: bool)
        ensures
            r == self.options@.contains(talent),
    {
        let mut i: usize = 0;
        while i < self.options.len()
            invariant
                i <= self.options@.len(),
                forall|j: int| 0 <= j < i ==> self.options@[j] != talent,
            decreases self.options@.len() - i,
        {
            if self.options[i] == talent {
                return true;
            }
            i = i + 1;
        }
        false
    }

    /// Whether this tier suggests the option at `index`: false for a tier with
    /// no opinion, and false for an index past the end of its options.
    pub fn is_recommended(&self, index: u8) -> (r: bool)
        ensures
            r == (self.recommended == Some(index) && (index as int) < self.options@.len()),
    {
        match self.recommended {
            Some(k) => k == index && (index as usize) < self.options.len(),
            None => false,
        }
    }
}

/// A unit's whole talent tree. The default is an empty tree under
/// [`RepickPolicy::Locked`].
#[derive(Clone, PartialEq, Eq, Debug, Default)]
pub struct TalentTree {
    /// The tiers, in the order a pick addresses them.
    pub tiers: Vec<TalentTier>,
    /// Whether a choice already made may be replaced.
    pub repick: RepickPolicy,
}

/// How many tiers of a tree a pick can name.
pub open spec fn reachable_len(tree: TalentTree) -> int {
    if tree.tiers@.len() < MAX_TIERS { tree.tiers@.len() as int } else { MAX_TIERS as int }
}

/// Whether the tier at `index` exists and is open at `level`.
pub open spec fn tier_unlocked(tree: TalentTree, index: u8, level: u8) -> bool {
    (index as int) < tree.tiers@.len() && level >= tree.tiers@[index as int].level
}

impl TalentTree {
    /// How many tiers a pick can actually name — the declared count, capped at
    /// [`MAX_TIERS`].
    pub fn len(&self) -> (r: usize)
        ensures
            r == reachable_len(*self),
    {
        if self.tiers.len() < MAX_TIERS { self.tiers.len() } else { MAX_TIERS }
    }

    /// Whether there is nothing to choose.
    pub fn is_empty(&self) -> (r: bool)
        ensures
            r == (self.tiers@.len() == 0),
    {
        self.len() == 0
    }

    /// The tier at `index`, or `None` when no tier sits there.
    pub fn tier(&self, index: u8) -> (r: Option<&TalentTier>)
        ensures
            r == (if (index as int) < self.tiers@.len() {
                Some(&self.tiers@[index as int])
            } else {
                None
            }),
    {
        if (index as usize) < self.tiers.len() {
            Some(&self.tiers[index as usize])
        } else {
            None
        }
    }

    /// Every reachable tier, in order, paired with the index a pick names it by.
    pub fn reachable(&self) -> (r: Vec<(u8, &TalentTier)>)
        ensures
            r@.len() == reachable_len(*self),
            forall|i: int| 0 <= i < r@.len() ==> (#[trigger] r@[i]).0 == i && *r@[i].1 == self.tiers@[i],
    {
        let n = self.len();
        let mut out: Vec<(u8, &TalentTier)> = Vec::new();
        let mut i: usize = 0;
        while i < n
            invariant
                n == reachable_len(*self),
                i <= n,
                out@.len() == i,
                forall|j: int| 0 <= j < i ==> (#[trigger] out@[j]).0 == j && *out@[j].1 == self.tiers@[j],
            decreases n - i,
        {
            out.push((i as u8, &self.tiers[i]));
            i = i + 1;
        }
        out
    }

    /// Whether the tier at `index` is choosable by a unit standing at `level`.
    /// An index naming no tier is never unlocked.
    pub fn unlocked(&self, index: u8, level: u8) -> (r: bool)
        ensures
            r == tier_unlocked(*self, index, level),
    {
        match self.tier(index) {
            Some(tier) => tier.unlocked(level),
            None => false,
        }
    }

    /// The index of the first reachable tier that offers `talent`, or `None` if
    /// no reachable tier does.
    pub fn tier_of(&self, talent: TalentId) -> (r: Option<u8>)
        ensures
            match r {
                Some(i) => (i as int) < reachable_len(*self) && self.tiers@[i as int].options@.contains(talent)
                    && forall|j: int| 0 <= j < i ==> !(#[trigger] self.tiers@[j]).options@.contains(talent),
                None => forall|j: int| 0 <= j < reachable_len(*self) ==> !(#[trigger] self.tiers@[j]).options@.contains(talent),
            },
    {
        let n = self.len();
        let mut i: usize = 0;
        while i < n
            invariant
                n == reachable_len(*self),
                i <= n,
                forall|j: int| 0 <= j < i ==> !(#[trigger] self.tiers@[j]).options@.contains(talent),
            decreases n - i,
        {
            if self.tiers[i].offers(talent) {
                return Some(i as u8);
            }
            i = i + 1;
        }
        None
    }
}

/// A tier that is open at one level stays open at every higher level, and a
/// tier is open exactly when the unit's level has reached the tier's own: the
/// answer is read off the current level, so lowering the level re-locks it.
pub proof fn law_unlocked_monotone(tree: TalentTree, index: u8, low: u8, high: u8)
    requires
        low <= high,
        tier_unlocked(tree, index, low),
    ensures
        tier_unlocked(tree, index, high),
{
}

} // verus!
