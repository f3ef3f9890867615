//! `Condition` — the boolean predicate language gating casts, reactions and
//! branches. Evaluating one reads the world and compares floating-point values,
//! which is the engine's work; the library carries and remaps conditions.

use vstd::prelude::*;

use crate::ids::{BuffId, TagId, TalentId};
use crate::math::{Origin, Value, Who};
use crate::remap::{condition_same, conditions_same, value_same, IdMap, RemapIds};

verus! {

/// A comparison between two values.
#[derive(Clone, Copy, PartialEq, Eq, Structural, Hash, Debug)]
pub enum CmpOp {
    Lt,
    Le,
    Eq,
    Ge,
    Gt,
}

/// A predicate over the resolution context.
#[derive(PartialEq, Debug)]
pub enum Condition {
    Always,
    Cmp(CmpOp, Value, Value),
    HasTag(TagId, Who),
    HasBuff(BuffId, Who),
    HasTalent(TalentId),
    And(Vec<Condition>),
    Or(Vec<Condition>),
    Not(Box<Condition>),
    /// A buff on `who` that [`Origin`] applied.
    HasBuffFrom(BuffId, Who, Origin),
}

impl Clone for Condition {
    fn clone(&self) -> (r: Self)
        ensures
            condition_same(r, *self),
        decreases self,
    {
        match self {
            Condition::Always => Condition::Always,
            Condition::Cmp(op, a, b) => {
                proof {
                    lemma_value_same_reflexive(*a);
                    lemma_value_same_reflexive(*b);
                }
                Condition::Cmp(*op, a.clone(), b.clone())
            },
            Condition::HasTag(t, w) => Condition::HasTag(*t, *w),
            Condition::HasBuff(b, w) => Condition::HasBuff(*b, *w),
            Condition::HasTalent(t) => Condition::HasTalent(*t),
            Condition::And(cs) => Condition::And(clone_conditions(cs)),
            Condition::Or(cs) => Condition::Or(clone_conditions(cs)),
            Condition::Not(c) => Condition::Not(Box::new((**c).clone())),
            Condition::HasBuffFrom(b, w, o) => Condition::HasBuffFrom(*b, *w, *o),
        }
    }
}

/// Every value holds the same contents as itself.
proof fn lemma_value_same_reflexive(x: Value)
    ensures
        value_same(x, x),
    decreases x,
{
    match x {
        Value::Bin(_, a, b) => {
            lemma_value_same_reflexive(*a);
            lemma_value_same_reflexive(*b);
        },
        Value::Clamp { v, lo, hi } => {
            lemma_value_same_reflexive(*v);
            lemma_value_same_reflexive(*lo);
            lemma_value_same_reflexive(*hi);
        },
        Value::Curve(_, v) => lemma_value_same_reflexive(*v),
        _ => {},
    }
}

/// A copy of every condition in `cs`, in order.
fn clone_conditions(cs: &Vec<Condition>) -> (r: Vec<Condition>)
    ensures
        conditions_same(r@, cs@),
    decreases cs,
{
    let mut out: Vec<Condition> = Vec::new();
    let mut i: usize = 0;
    while i < cs.len()
        invariant
            i <= cs@.len(),
            conditions_same(out@, cs@.take(i as int)),
        decreases cs@.len() - i,
    {
        proof {
            assert(decreases_to!(cs => cs@));
            assert(decreases_to!(cs@ => cs@[i as int]));
        }
        let c = cs[i].clone();
        let ghost before = out@;
        out.push(c);
        assert forall|k: int| 0 <= k < out@.len() implies condition_same(#[trigger] out@[k], cs@.take(i + 1)[k]) by {
            if k < i {
                assert(condition_same(before[k], cs@.take(i as int)[k]));
            }
        }
        i = i + 1;
    }
    assert(cs@.take(i as int) =~= cs@);
    out
}

/// A successful walk over a condition translates each handle it holds through
/// its own family of the map (a tag through the tag family, a buff through the
/// buff family, a talent through the talent family) and keeps whose state is
/// tested, the origin filter and the comparison operator; a comparison walks
/// both its sides, and a negation walks what it negates.
pub proof fn law_a_condition_walk_translates_its_handles<M: IdMap>(c: Condition, m: &M, new: Condition)
    requires
        c.remaps_to(m, new),
    ensures
        c is Always ==> new is Always,
        c matches Condition::HasTag(id, who) ==> m.tag_spec(id) is Ok && new == Condition::HasTag(
            m.tag_spec(id)->Ok_0,
            who,
        ),
        c matches Condition::HasBuff(id, who) ==> m.buff_spec(id) is Ok && new == Condition::HasBuff(
            m.buff_spec(id)->Ok_0,
            who,
        ),
        c matches Condition::HasTalent(id) ==> m.talent_spec(id) is Ok && new == Condition::HasTalent(
            m.talent_spec(id)->Ok_0,
        ),
        c matches Condition::HasBuffFrom(id, who, origin) ==> m.buff_spec(id) is Ok && new
            == Condition::HasBuffFrom(m.buff_spec(id)->Ok_0, who, origin),
        c matches Condition::Cmp(op, a, b) ==> (new matches Condition::Cmp(op2, a2, b2) && op2 == op && a.remaps_to(
            m,
            a2,
        ) && b.remaps_to(m, b2)),
        c matches Condition::Not(x) ==> (new matches Condition::Not(y) && (*x).remaps_to(m, *y)),
{
}

/// A walk over a condition that holds a handle directly fails exactly when the
/// map refuses that handle, with the map's own error; `Always` never fails.
pub proof fn law_a_condition_walk_fails_with_its_handle<M: IdMap>(c: Condition, m: &M)
    ensures
        c is Always ==> c.remap_check(m) is Ok,
        c matches Condition::HasTag(id, _) ==> c.remap_check(m) == match m.tag_spec(id) {
            Ok(_) => Ok(()),
            Err(e) => Err(e),
        },
        c matches Condition::HasBuff(id, _) ==> c.remap_check(m) == match m.buff_spec(id) {
            Ok(_) => Ok(()),
            Err(e) => Err(e),
        },
        c matches Condition::HasTalent(id) ==> c.remap_check(m) == match m.talent_spec(id) {
            Ok(_) => Ok(()),
            Err(e) => Err(e),
        },
        c matches Condition::HasBuffFrom(id, _, _) ==> c.remap_check(m) == match m.buff_spec(id) {
            Ok(_) => Ok(()),
            Err(e) => Err(e),
        },
{
}

} // verus!
