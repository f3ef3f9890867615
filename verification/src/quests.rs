//! Authoring helpers for tasks: a rung, a ladder of rungs, a single-goal task,
//! and the condition that reads a burst of counts.

use vstd::prelude::*;

use crate::conditions::{CmpOp, Condition};
use crate::ids::StackId;
use crate::impacts::Impact;
use crate::math::{Value, Var, Who};
use crate::scalar::Scalar;
use crate::tasks::{QuestPayout, QuestSpec, QuestStage};

verus! {

/// One rung: reaching `threshold` pays `reward`.
pub fn rung(threshold: Scalar, reward: Vec<Impact>) -> (r: QuestStage)
    ensures
        r.threshold == threshold,
        r.reward == reward,
{
    QuestStage { threshold, reward }
}

/// A task counted in `counter`, paying its rungs in order.
pub fn ladder(counter: StackId, stages: Vec<QuestStage>) -> (r: QuestSpec)
    ensures
        r.counter == counter,
        r.payout == QuestPayout::Stages(stages),
{
    QuestSpec { counter, payout: QuestPayout::Stages(stages) }
}

/// A single-goal task: the one-rung ladder.
pub fn goal(counter: StackId, target: Scalar, reward: Vec<Impact>) -> (r: QuestSpec)
    ensures
        r.counter == counter,
        r.payout matches QuestPayout::Stages(s) && s@.len() == 1 && s@[0].threshold == target && s@[0].reward == reward,
{
    let mut stages: Vec<QuestStage> = Vec::new();
    stages.push(rung(target, reward));
    ladder(counter, stages)
}

/// The condition that `counter` gained at least `many` on this tick, on the
/// caster: a burst, stated with an ordinary read.
pub fn gained_at_once(counter: StackId, many: Scalar) -> (r: Condition)
    ensures
        r == Condition::Cmp(CmpOp::Ge, Value::Read(Var::StackGain(counter, Who::Caster)), Value::Const(many)),
{
    Condition::Cmp(CmpOp::Ge, Value::Read(Var::StackGain(counter, Who::Caster)), Value::Const(many))
}

} // verus!
