//! Tasks — a counted objective that pays out while it is being worked at.
//!
//! [`QuestSpec`] is the whole declaration: a counter to watch, and a ladder of
//! rungs saying what the count buys. A single-goal task is the one-rung case.
//! Everything downstream is phrased in rungs: [`QuestSpec::reached`] counts
//! them, a latch remembers how many have been paid, and a payout walks the ones
//! in between. Nothing here counts; counting is ordinary effect work.

use vstd::prelude::*;

use crate::ids::StackId;
use crate::impacts::{clone_impacts, Impact};
use crate::scalar::Scalar;
use crate::text::{decimal, decimal_string, owned, push_str};

verus! {

/// One rung of a task's ladder: the count that reaches it, and what reaching it
/// hands over (an ordinary effect tree, dispatched against the task's owner).
#[derive(Clone, PartialEq, Debug)]
pub struct QuestStage {
    /// The count at which this rung pays; strictly above the rung before it.
    pub threshold: Scalar,
    /// What reaching it hands over. Empty marks progress only.
    pub reward: Vec<Impact>,
}

/// How a task pays for the counts it is given.
#[derive(Clone, PartialEq, Debug)]
pub enum QuestPayout {
    /// An ordered ladder: rung `i` pays when the count reaches
    /// `stages[i].threshold`.
    Stages(Vec<QuestStage>),
}

/// A task: a counter, and what the counts in it buy.
#[derive(Clone, PartialEq, Debug)]
pub struct QuestSpec {
    /// The stack counter the task is counted in.
    pub counter: StackId,
    /// What the counts buy, and when.
    pub payout: QuestPayout,
}

/// Why a [`QuestSpec`] cannot be run as declared. Indices point at the rung at
/// fault.
#[derive(Clone, Copy, PartialEq, Eq, Structural, Debug)]
pub enum QuestError {
    /// A ladder with no rungs.
    NoStages,
    /// A threshold no count can reach — zero, negative, or not finite.
    UnreachableThreshold { stage: u16 },
    /// A rung that does not sit above the one before it.
    UnorderedStages { stage: u16 },
}

/// The rungs of a ladder.
pub open spec fn stages_of(q: QuestSpec) -> Seq<QuestStage> {
    match q.payout {
        QuestPayout::Stages(stages) => stages@,
    }
}

/// A rung's index as reported in an error, saturating at `u16::MAX`.
pub open spec fn stage_label(i: int) -> u16 {
    if i <= u16::MAX { i as u16 } else { u16::MAX }
}

/// The verdict on the rungs from `i` on, the rung before `i` having threshold
/// `previous`: the first rung whose threshold is not finite and positive is
/// unreachable, the first that does not sit above its predecessor is unordered.
pub open spec fn ladder_from(stages: Seq<QuestStage>, i: int, previous: Scalar) -> Result<(), QuestError>
    decreases stages.len() - i,
{
    if i < 0 || i >= stages.len() {
        Ok(())
    } else {
        let t = stages[i].threshold;
        if !t.spec_is_finite() || t.spec_le(Scalar::zero_spec()) {
            Err(QuestError::UnreachableThreshold { stage: stage_label(i) })
        } else if t.spec_le(previous) {
            Err(QuestError::UnorderedStages { stage: stage_label(i) })
        } else {
            ladder_from(stages, i + 1, t)
        }
    }
}

/// The verdict on a whole task.
pub open spec fn quest_check(q: QuestSpec) -> Result<(), QuestError> {
    if stages_of(q).len() == 0 {
        Err(QuestError::NoStages)
    } else {
        ladder_from(stages_of(q), 0, Scalar::zero_spec())
    }
}

/// How many rungs a runnable task has, saturating at `u32::MAX`; zero for one
/// that cannot run.
pub open spec fn rungs_of(q: QuestSpec) -> u32 {
    if quest_check(q) is Err {
        0
    } else if stages_of(q).len() <= u32::MAX {
        stages_of(q).len() as u32
    } else {
        u32::MAX
    }
}

/// How many leading rungs of `stages`, from `i` on, a count reaches.
pub open spec fn reached_from(stages: Seq<QuestStage>, count: Scalar, i: int) -> nat
    decreases stages.len() - i,
{
    if i < 0 || i >= stages.len() {
        0
    } else if stages[i].threshold.spec_le(count) {
        1 + reached_from(stages, count, i + 1)
    } else {
        0
    }
}

/// How many rungs a count reaches: none for a count that is not finite, else
/// the leading run of the task's rungs whose threshold the count is at least.
pub open spec fn reached_of(q: QuestSpec, count: Scalar) -> nat {
    if !count.spec_is_finite() {
        0
    } else {
        reached_from(stages_of(q).take(rungs_of(q) as int), count, 0)
    }
}

/// The task's final target: the threshold of its last counted rung.
pub open spec fn goal_of(q: QuestSpec) -> Option<Scalar> {
    if rungs_of(q) == 0 {
        None
    } else {
        Some(stages_of(q)[rungs_of(q) - 1].threshold)
    }
}

/// `f32::clamp(x, lo, hi)` on numbers, read off the bits: below `lo` gives
/// `lo`, above `hi` gives `hi`, anything else is `x` itself.
pub open spec fn clamp_spec(x: Scalar, lo: Scalar, hi: Scalar) -> Scalar {
    let y = if x.spec_lt(lo) { lo } else { x };
    if hi.spec_lt(y) { hi } else { y }
}

impl QuestError {
    /// The human-readable report of this refusal.
    pub open spec fn message_spec(self) -> Seq<char> {
        match self {
            QuestError::NoStages => "task declares no stages"@,
            QuestError::UnreachableThreshold { stage } => "task stage "@ + decimal(stage as nat)
                + " sets a threshold no count can reach"@,
            QuestError::UnorderedStages { stage } => "task stage "@ + decimal(stage as nat)
                + " does not sit above the stage before it"@,
        }
    }

    /// The human-readable report of this refusal.
    pub fn message(&self) -> (r: String)
        ensures
            r@ == self.message_spec(),
    {
        match self {
            QuestError::NoStages => owned("task declares no stages"),
            QuestError::UnreachableThreshold { stage } => {
                let mut s = owned("task stage ");
                let n = decimal_string(*stage as u64);
                push_str(&mut s, n.as_str());
                push_str(&mut s, " sets a threshold no count can reach");
                s
            },
            QuestError::UnorderedStages { stage } => {
                let mut s = owned("task stage ");
                let n = decimal_string(*stage as u64);
                push_str(&mut s, n.as_str());
                push_str(&mut s, " does not sit above the stage before it");
                s
            },
        }
    }
}

impl QuestSpec {
    /// A single-goal task: reach `goal`, get `reward`.
    pub fn single(counter: StackId, goal: Scalar, reward: Vec<Impact>) -> (r: Self)
        ensures
            r.counter == counter,
            stages_of(r).len() == 1,
            stages_of(r)[0].threshold == goal,
            stages_of(r)[0].reward@ == reward@,
    {
        let mut stages: Vec<QuestStage> = Vec::new();
        stages.push(QuestStage { threshold: goal, reward });
        QuestSpec { counter, payout: QuestPayout::Stages(stages) }
    }

    /// Why the quest cannot be run, or `Ok` if it can: a ladder needs at least
    /// one rung, every threshold finite and positive, and each strictly above
    /// the one before it.
    pub fn validate(&self) -> (r: Result<(), QuestError>)
        ensures
            r == quest_check(*self),
    {
        match &self.payout {
            QuestPayout::Stages(stages) => {
                if stages.len() == 0 {
                    return Err(QuestError::NoStages);
                }
                let mut previous = Scalar::zero();
                let mut index: usize = 0;
                while index < stages.len()
                    invariant
                        index <= stages@.len(),
                        stages@ == stages_of(*self),
                        stages@.len() > 0,
                        ladder_from(stages@, 0, Scalar::zero_spec()) == ladder_from(stages@, index as int, previous),
                    decreases stages@.len() - index,
                {
                    let at: u16 = if index <= 65535 { index as u16 } else { 65535 };
                    let t = stages[index].threshold;
                    if !t.is_finite() || t.le(Scalar::zero()) {
                        return Err(QuestError::UnreachableThreshold { stage: at });
                    }
                    if t.le(previous) {
                        return Err(QuestError::UnorderedStages { stage: at });
                    }
                    previous = t;
                    index = index + 1;
                }
                Ok(())
            },
        }
    }

    /// Whether the quest is one the engine will run at all.
    pub fn well_formed(&self) -> (r: bool)
        ensures
            r == (quest_check(*self) is Ok),
    {
        self.validate().is_ok()
    }

    /// How many rungs the quest has. Zero for a declaration nothing can run.
    pub fn rungs(&self) -> (r: u32)
        ensures
            r == rungs_of(*self),
    {
        if !self.well_formed() {
            return 0;
        }
        match &self.payout {
            QuestPayout::Stages(stages) => {
                if stages.len() <= 4294967295 {
                    stages.len() as u32
                } else {
                    4294967295
                }
            },
        }
    }

    /// The count at which rung `rung` pays, or `None` past the end of the
    /// ladder (or for a task that cannot run).
    pub fn threshold(&self, rung: u32) -> (r: Option<Scalar>)
        ensures
            r == (if quest_check(*self) is Ok && rung < stages_of(*self).len() {
                Some(stages_of(*self)[rung as int].threshold)
            } else {
                None
            }),
    {
        if !self.well_formed() {
            return None;
        }
        match &self.payout {
            QuestPayout::Stages(stages) => {
                if (rung as usize) < stages.len() {
                    Some(stages[rung as usize].threshold)
                } else {
                    None
                }
            },
        }
    }

    /// What rung `rung` hands over. Empty past the end of the ladder and for a
    /// task that cannot run — both dispatch nothing.
    pub fn reward(&self, rung: u32) -> (r: &[Impact])
        ensures
            r@ == (if quest_check(*self) is Ok && rung < stages_of(*self).len() {
                stages_of(*self)[rung as int].reward@
            } else {
                Seq::<Impact>::empty()
            }),
    {
        if !self.well_formed() {
            return &[];
        }
        match &self.payout {
            QuestPayout::Stages(stages) => {
                if (rung as usize) < stages.len() {
                    stages[rung as usize].reward.as_slice()
                } else {
                    &[]
                }
            },
        }
    }

    /// How many rungs a count of `count` has reached: none unless the count is
    /// finite, else the leading rungs whose threshold it is at least. Because
    /// the thresholds increase, the rungs reached are always a prefix.
    pub fn reached(&self, count: Scalar) -> (r: u32)
        ensures
            r == reached_of(*self, count),
    {
        if !count.is_finite() {
            return 0;
        }
        let n = self.rungs();
        let ghost prefix = stages_of(*self).take(n as int);
        let mut rung: u32 = 0;
        while rung < n
            invariant
                n == rungs_of(*self),
                prefix == stages_of(*self).take(n as int),
                n <= stages_of(*self).len(),
                n > 0 ==> quest_check(*self) is Ok,
                rung <= n,
                count.spec_is_finite(),
                prefix.len() == n,
                reached_from(prefix, count, 0) == rung + reached_from(prefix, count, rung as int),
            decreases n - rung,
        {
            match self.threshold(rung) {
                Some(at) => {
                    proof {
                        assert(prefix[rung as int] == stages_of(*self)[rung as int]);
                    }
                    if !at.le(count) {
                        return rung;
                    }
                },
                None => {
                    return rung;
                },
            }
            rung = rung + 1;
        }
        rung
    }

    /// The task's final target — the last rung's threshold. `None` for a
    /// declaration nothing can run.
    pub fn goal(&self) -> (r: Option<Scalar>)
        ensures
            r == goal_of(*self),
    {
        let n = self.rungs();
        if n == 0 {
            None
        } else {
            self.threshold(n - 1)
        }
    }

    /// Whether a count of `count` has reached every rung.
    pub fn complete(&self, count: Scalar) -> (r: bool)
        ensures
            r == (rungs_of(*self) > 0 && reached_of(*self, count) == rungs_of(*self)),
    {
        let n = self.rungs();
        n > 0 && self.reached(count) == n
    }

    /// How far along the task a count of `count` is, capped at the final
    /// target: the count clamped into `[0, goal]`, or `0.0` for a count that is
    /// not finite or a task that cannot run. A finite count is only clamped
    /// against a goal of at least zero (a negative or NaN goal is an empty
    /// range, which a validated task never has).
    pub fn progress(&self, count: Scalar) -> (r: Scalar)
        requires
            count.spec_is_finite() ==> match goal_of(*self) {
                Some(goal) => Scalar::zero_spec().spec_le(goal),
                None => true,
            },
        ensures
            r == (match goal_of(*self) {
                Some(goal) => if count.spec_is_finite() {
                    clamp_spec(count, Scalar::zero_spec(), goal)
                } else {
                    Scalar::zero_spec()
                },
                None => Scalar::zero_spec(),
            }),
    {
        match self.goal() {
            Some(goal) => {
                if count.is_finite() {
                    let y = if count.lt(Scalar::zero()) { Scalar::zero() } else { count };
                    if goal.lt(y) { goal } else { y }
                } else {
                    Scalar::zero()
                }
            },
            None => Scalar::zero(),
        }
    }

    /// The quest with every reward tree emptied — what a client may hold: the
    /// counter, the thresholds and the shape, none of the prizes.
    pub fn stripped(&self) -> (r: Self)
        ensures
            r.counter == self.counter,
            stages_of(r).len() == stages_of(*self).len(),
            forall|i: int| 0 <= i < stages_of(r).len() ==> {
                &&& (#[trigger] stages_of(r)[i]).threshold == stages_of(*self)[i].threshold
                &&& stages_of(r)[i].reward@.len() == 0
            },
    {
        match &self.payout {
            QuestPayout::Stages(stages) => {
                let mut out: Vec<QuestStage> = Vec::new();
                let mut i: usize = 0;
                while i < stages.len()
                    invariant
                        i <= stages@.len(),
                        stages@ == stages_of(*self),
                        out@.len() == i,
                        forall|j: int| 0 <= j < i ==> {
                            &&& (#[trigger] out@[j]).threshold == stages@[j].threshold
                            &&& out@[j].reward@.len() == 0
                        },
                    decreases stages@.len() - i,
                {
                    out.push(QuestStage { threshold: stages[i].threshold, reward: Vec::new() });
                    i = i + 1;
                }
                QuestSpec { counter: self.counter, payout: QuestPayout::Stages(out) }
            },
        }
    }
}


/// A finite number is no NaN.
proof fn lemma_finite_is_no_nan(s: Scalar)
    requires
        s.spec_is_finite(),
    ensures
        !s.spec_is_nan(),
{
    let b = s.bits;
    assert(((b >> 23u32) & 0xffu32) != 0xffu32 ==> (b & 0x7fff_ffffu32) <= 0x7f80_0000u32) by (bit_vector);
}

/// Zero is no NaN.
proof fn lemma_zero_is_no_nan()
    ensures
        !Scalar::zero_spec().spec_is_nan(),
{
    assert((0u32 & 0x7fff_ffffu32) <= 0x7f80_0000u32) by (bit_vector);
}

/// A ladder that passes from rung `i` on, after a rung at `previous`: every
/// rung from `i` is finite, above zero and above `previous`, and they rise.
proof fn lemma_ladder_rises(stages: Seq<QuestStage>, i: int, previous: Scalar)
    requires
        0 <= i,
        !previous.spec_is_nan(),
        ladder_from(stages, i, previous) is Ok,
    ensures
        forall|j: int|
            i <= j < stages.len() ==> {
                &&& (#[trigger] stages[j]).threshold.spec_is_finite()
                &&& Scalar::zero_spec().spec_lt(stages[j].threshold)
                &&& previous.spec_lt(stages[j].threshold)
            },
        forall|j: int, k: int|
            i <= j < k < stages.len() ==> (#[trigger] stages[j]).threshold.spec_lt((#[trigger] stages[k]).threshold),
    decreases stages.len() - i,
{
    if i < stages.len() {
        let t = stages[i].threshold;
        lemma_finite_is_no_nan(t);
        lemma_zero_is_no_nan();
        lemma_ladder_rises(stages, i + 1, t);
    }
}

/// Rungs from `i` on that are finite, above zero and rising, the first above
/// `previous`, pass the ladder.
proof fn lemma_rising_ladder_passes(stages: Seq<QuestStage>, i: int, previous: Scalar)
    requires
        0 <= i,
        !previous.spec_is_nan(),
        forall|j: int|
            i <= j < stages.len() ==> (#[trigger] stages[j]).threshold.spec_is_finite() && Scalar::zero_spec().spec_lt(
                stages[j].threshold,
            ),
        forall|j: int| i < j < stages.len() ==> (#[trigger] stages[j - 1]).threshold.spec_lt(stages[j].threshold),
        i < stages.len() ==> previous.spec_lt(stages[i].threshold),
    ensures
        ladder_from(stages, i, previous) is Ok,
    decreases stages.len() - i,
{
    if i < stages.len() {
        let t = stages[i].threshold;
        lemma_finite_is_no_nan(t);
        if i + 1 < stages.len() {
            assert(stages[i + 1 - 1].threshold.spec_lt(stages[i + 1].threshold));
        }
        lemma_rising_ladder_passes(stages, i + 1, t);
    }
}

/// A task passes [`QuestSpec::validate`] exactly when it has rungs, every
/// threshold is finite and above zero, and each sits strictly above the one
/// before it.
pub proof fn law_a_valid_ladder_rises(q: QuestSpec)
    ensures
        quest_check(q) is Ok <==> {
            &&& stages_of(q).len() > 0
            &&& forall|i: int|
                0 <= i < stages_of(q).len() ==> (#[trigger] stages_of(q)[i]).threshold.spec_is_finite()
                    && Scalar::zero_spec().spec_lt(stages_of(q)[i].threshold)
            &&& forall|i: int|
                0 < i < stages_of(q).len() ==> (#[trigger] stages_of(q)[i - 1]).threshold.spec_lt(
                    stages_of(q)[i].threshold,
                )
        },
{
    let s = stages_of(q);
    if quest_check(q) is Ok {
        lemma_zero_is_no_nan();
        lemma_ladder_rises(s, 0, Scalar::zero_spec());
        assert forall|i: int| 0 < i < s.len() implies (#[trigger] s[i - 1]).threshold.spec_lt(s[i].threshold) by {
            assert(s[i - 1].threshold.spec_lt(s[i].threshold));
        }
    } else if s.len() > 0 {
        if (forall|i: int| 0 <= i < s.len() ==> (#[trigger] s[i]).threshold.spec_is_finite()
            && Scalar::zero_spec().spec_lt(s[i].threshold)) && (forall|i: int|
            0 < i < s.len() ==> (#[trigger] s[i - 1]).threshold.spec_lt(s[i].threshold)) {
            lemma_zero_is_no_nan();
            lemma_rising_ladder_passes(s, 0, Scalar::zero_spec());
        }
    }
}

proof fn lemma_reached_bounded(stages: Seq<QuestStage>, count: Scalar, i: int)
    requires
        0 <= i <= stages.len(),
    ensures
        reached_from(stages, count, i) <= stages.len() - i,
    decreases stages.len() - i,
{
    if i < stages.len() {
        lemma_reached_bounded(stages, count, i + 1);
    }
}

proof fn lemma_reached_grows(stages: Seq<QuestStage>, low: Scalar, high: Scalar, i: int)
    requires
        0 <= i,
        low.spec_le(high),
    ensures
        reached_from(stages, low, i) <= reached_from(stages, high, i),
    decreases stages.len() - i,
{
    if i < stages.len() {
        lemma_reached_grows(stages, low, high, i + 1);
    }
}

/// On rising rungs from `i`, the rungs a count reaches are exactly those whose
/// threshold it is at least, and they come first.
proof fn lemma_reached_is_prefix(stages: Seq<QuestStage>, count: Scalar, i: int)
    requires
        0 <= i <= stages.len(),
        !count.spec_is_nan(),
        forall|j: int| i <= j < stages.len() ==> !(#[trigger] stages[j]).threshold.spec_is_nan(),
        forall|j: int, k: int|
            i <= j < k < stages.len() ==> (#[trigger] stages[j]).threshold.spec_lt((#[trigger] stages[k]).threshold),
    ensures
        forall|k: int|
            i <= k < stages.len() ==> (k < i + reached_from(stages, count, i) <==> (#[trigger] stages[k]).threshold.spec_le(
                count,
            )),
    decreases stages.len() - i,
{
    if i < stages.len() {
        lemma_reached_is_prefix(stages, count, i + 1);
        if !stages[i].threshold.spec_le(count) {
            assert forall|k: int| i <= k < stages.len() implies !(#[trigger] stages[k]).threshold.spec_le(count) by {
                if k > i {
                    assert(stages[i].threshold.spec_lt(stages[k].threshold));
                }
            }
        }
    }
}

/// A larger count never reaches fewer rungs, and no count reaches more rungs
/// than the task has. Counts that are not finite reach nothing, so both counts
/// are finite here.
pub proof fn law_reached_grows_with_the_count(q: QuestSpec, low: Scalar, high: Scalar)
    requires
        low.spec_is_finite(),
        high.spec_is_finite(),
        low.spec_le(high),
    ensures
        reached_of(q, low) <= reached_of(q, high),
        reached_of(q, high) <= rungs_of(q),
{
    let prefix = stages_of(q).take(rungs_of(q) as int);
    lemma_reached_grows(prefix, low, high, 0);
    lemma_reached_bounded(prefix, high, 0);
}

/// On a task that can run, a finite count reaches exactly the rungs whose
/// threshold it is at least — always a leading run of the ladder.
pub proof fn law_reached_rungs_are_a_prefix(q: QuestSpec, count: Scalar, k: int)
    requires
        quest_check(q) is Ok,
        count.spec_is_finite(),
        0 <= k < rungs_of(q),
    ensures
        k < reached_of(q, count) <==> stages_of(q)[k].threshold.spec_le(count),
{
    let s = stages_of(q);
    let prefix = s.take(rungs_of(q) as int);
    lemma_finite_is_no_nan(count);
    lemma_zero_is_no_nan();
    lemma_ladder_rises(s, 0, Scalar::zero_spec());
    assert forall|j: int| 0 <= j < prefix.len() implies !(#[trigger] prefix[j]).threshold.spec_is_nan() by {
        lemma_finite_is_no_nan(s[j].threshold);
    }
    assert forall|j: int, l: int| 0 <= j < l < prefix.len() implies (#[trigger] prefix[j]).threshold.spec_lt(
        (#[trigger] prefix[l]).threshold,
    ) by {
        assert(s[j].threshold.spec_lt(s[l].threshold));
    }
    lemma_reached_is_prefix(prefix, count, 0);
    assert(prefix[k] == s[k]);
}

proof fn lemma_ladder_reads_thresholds(a: Seq<QuestStage>, b: Seq<QuestStage>, i: int, previous: Scalar)
    requires
        a.len() == b.len(),
        forall|j: int| 0 <= j < a.len() ==> (#[trigger] a[j]).threshold == b[j].threshold,
    ensures
        ladder_from(a, i, previous) == ladder_from(b, i, previous),
    decreases a.len() - i,
{
    if 0 <= i < a.len() {
        lemma_ladder_reads_thresholds(a, b, i + 1, a[i].threshold);
    }
}

proof fn lemma_reached_reads_thresholds(a: Seq<QuestStage>, b: Seq<QuestStage>, count: Scalar, i: int)
    requires
        a.len() == b.len(),
        forall|j: int| 0 <= j < a.len() ==> (#[trigger] a[j]).threshold == b[j].threshold,
    ensures
        reached_from(a, count, i) == reached_from(b, count, i),
    decreases a.len() - i,
{
    if 0 <= i < a.len() {
        assert(a[i].threshold == b[i].threshold);
        lemma_reached_reads_thresholds(a, b, count, i + 1);
    }
}

/// Everything a client reads of a task is in its thresholds: a task with the
/// same thresholds in the same order — such as the one
/// [`QuestSpec::stripped`] gives — validates alike, has the same rungs and
/// goal, and any count reaches the same rungs of it.
pub proof fn law_stripping_keeps_what_a_client_reads(q: QuestSpec, r: QuestSpec, count: Scalar)
    requires
        stages_of(r).len() == stages_of(q).len(),
        forall|i: int|
            0 <= i < stages_of(q).len() ==> (#[trigger] stages_of(r)[i]).threshold == stages_of(q)[i].threshold,
    ensures
        quest_check(r) == quest_check(q),
        rungs_of(r) == rungs_of(q),
        goal_of(r) == goal_of(q),
        reached_of(r, count) == reached_of(q, count),
{
    lemma_ladder_reads_thresholds(stages_of(r), stages_of(q), 0, Scalar::zero_spec());
    let n = rungs_of(q) as int;
    let a = stages_of(r).take(n);
    let b = stages_of(q).take(n);
    assert forall|j: int| 0 <= j < a.len() implies (#[trigger] a[j]).threshold == b[j].threshold by {
        assert(stages_of(r)[j].threshold == stages_of(q)[j].threshold);
    }
    lemma_reached_reads_thresholds(a, b, count, 0);
    if n > 0 {
        assert(stages_of(r)[n - 1].threshold == stages_of(q)[n - 1].threshold);
    }
}

} // verus!
