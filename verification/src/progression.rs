//! Leveling — how a unit earns experience, the thresholds that turn it into
//! levels, and what each level grants.

use vstd::prelude::*;

use crate::ids::{CurveId, TagId};
use crate::math::Value;
use crate::scalar::Scalar;
use crate::talents::GrantAbility;

verus! {

/// The experience each level takes: a table, or a curve of the level.
#[derive(Clone, PartialEq, Debug)]
pub enum XpCurve {
    Table(Vec<Scalar>),
    Curve(CurveId),
}

/// What reaching a level hands over.
#[derive(Clone, PartialEq, Eq, Debug, Default)]
pub struct LevelGrants {
    pub tags: Vec<TagId>,
    pub abilities: Vec<GrantAbility>,
}

/// Who shares a kill's bounty.
#[derive(Clone, Copy, PartialEq, Eq, Structural, Hash, Debug)]
pub enum XpShare {
    Killer,
    ByDamage,
    Team,
}

impl Default for XpShare {
    fn default() -> (r: Self)
        ensures
            r == XpShare::Team,
    {
        XpShare::Team
    }
}

/// The experience a unit is worth when killed.
#[derive(Clone, PartialEq, Debug)]
pub struct XpBounty {
    pub amount: Value,
    pub share: XpShare,
    /// How long damage counts toward a share, in seconds.
    pub credit_window: Option<Scalar>,
}

/// `f32::max(w, 0.0)` for a finite `w`: zero below zero, `w` otherwise.
pub open spec fn at_least_zero(w: Scalar) -> Scalar {
    if w.spec_lt(Scalar::zero_spec()) { Scalar::zero_spec() } else { w }
}

impl XpBounty {
    /// A bounty of `amount`, shared by the team, with no credit window.
    pub fn worth(amount: Value) -> (r: Self)
        ensures
            r.amount == amount,
            r.share == XpShare::Team,
            r.credit_window is None,
    {
        XpBounty { amount, share: XpShare::Team, credit_window: None }
    }

    /// The credit window in effect: a finite declared window, never below
    /// zero; `None` when none is declared or it is not finite.
    pub fn window(&self) -> (r: Option<Scalar>)
        ensures
            r == (match self.credit_window {
                Some(w) => if w.spec_is_finite() { Some(at_least_zero(w)) } else { None },
                None => None,
            }),
    {
        match self.credit_window {
            Some(w) => if w.is_finite() {
                Some(if w.is_negative() { Scalar::zero() } else { w })
            } else {
                None
            },
            None => None,
        }
    }
}

/// What earns a unit experience.
#[derive(Clone, Copy, PartialEq, Debug)]
pub enum XpTrigger {
    /// Every `period` seconds.
    Timed { period: Scalar },
    /// Whenever it deals damage.
    DamageDealt,
}

/// One source of experience.
#[derive(Clone, PartialEq, Debug)]
pub struct XpSource {
    pub trigger: XpTrigger,
    pub amount: Value,
}

impl XpSource {
    /// The period of a timed source, when it is a finite positive number.
    pub fn period(&self) -> (r: Option<Scalar>)
        ensures
            r == (match self.trigger {
                XpTrigger::Timed { period } => if period.spec_is_finite() && Scalar::zero_spec().spec_lt(period) {
                    Some(period)
                } else {
                    None
                },
                XpTrigger::DamageDealt => None,
            }),
    {
        match self.trigger {
            XpTrigger::Timed { period } => if period.is_finite() && period.is_positive() {
                Some(period)
            } else {
                None
            },
            XpTrigger::DamageDealt => None,
        }
    }
}

/// A unit's whole progression.
#[derive(Clone, PartialEq, Debug)]
pub struct ProgressionSpec {
    pub thresholds: XpCurve,
    pub max_level: u8,
    pub starting_level: u8,
    /// What each level grants, as `(level, grants)`; a level may appear more
    /// than once.
    pub grants: Vec<(u8, LevelGrants)>,
    pub sources: Vec<XpSource>,
    pub bounty: Option<XpBounty>,
}

/// The highest level a unit can reach: the declared maximum, at least one.
pub open spec fn ceiling_of(p: ProgressionSpec) -> u8 {
    if p.max_level < 1 { 1 } else { p.max_level }
}

impl ProgressionSpec {
    /// A unit that never levels and is only worth `bounty` when killed.
    pub fn bounty_only(bounty: XpBounty) -> (r: Self)
        ensures
            r.thresholds matches XpCurve::Table(t) && t@.len() == 0,
            r.max_level == 1,
            r.starting_level == 1,
            r.grants@.len() == 0,
            r.sources@.len() == 0,
            r.bounty == Some(bounty),
    {
        ProgressionSpec {
            thresholds: XpCurve::Table(Vec::new()),
            max_level: 1,
            grants: Vec::new(),
            sources: Vec::new(),
            bounty: Some(bounty),
            starting_level: 1,
        }
    }

    /// The highest level a unit can reach: the declared maximum, at least one.
    pub fn ceiling(&self) -> (r: u8)
        ensures
            r == ceiling_of(*self),
    {
        if self.max_level < 1 { 1 } else { self.max_level }
    }

    /// The level a unit starts at: the declared one, at least one and at most
    /// the ceiling.
    pub fn start(&self) -> (r: u8)
        ensures
            r == (if self.starting_level < 1 {
                1
            } else if self.starting_level > ceiling_of(*self) {
                ceiling_of(*self)
            } else {
                self.starting_level
            }),
            1 <= r <= ceiling_of(*self),
    {
        let at_least_one = if self.starting_level < 1 { 1 } else { self.starting_level };
        let c = self.ceiling();
        if at_least_one > c { c } else { at_least_one }
    }

    /// Everything granted at `level`, in declaration order.
    pub fn grants_at(&self, level: u8) -> (r: Vec<&LevelGrants>)
        ensures
            r@.len() == self.grants@.filter(|e: (u8, LevelGrants)| e.0 == level).len(),
            forall|i: int| 0 <= i < r@.len() ==> *r@[i] == self.grants@.filter(|e: (u8, LevelGrants)| e.0 == level)[i].1,
    {
        let ghost keep = |e: (u8, LevelGrants)| e.0 == level;
        let mut out: Vec<&LevelGrants> = Vec::new();
        let mut i: usize = 0;
        while i < self.grants.len()
            invariant
                i <= self.grants@.len(),
                keep == (|e: (u8, LevelGrants)| e.0 == level),
                out@.len() == self.grants@.take(i as int).filter(keep).len(),
                forall|j: int| 0 <= j < out@.len() ==> *out@[j] == self.grants@.take(i as int).filter(keep)[j].1,
            decreases self.grants@.len() - i,
        {
            proof {
                let s = self.grants@.take(i + 1);
                assert(s.drop_last() =~= self.grants@.take(i as int));
                reveal(Seq::filter);
                assert(s.last() == self.grants@[i as int]);
            }
            if self.grants[i].0 == level {
                out.push(&self.grants[i].1);
            }
            i = i + 1;
        }
        proof {
            assert(self.grants@.take(self.grants@.len() as int) =~= self.grants@);
        }
        out
    }
}

} // verus!
