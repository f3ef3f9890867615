//! Buffs and stat modifiers. A [`BuffSpec`] bundles modifiers, tags, reactions
//! and lifecycle hooks.
//!
//! Aggregating resolved modifiers into a stat folds them in the fixed order
//! `base → + ΣAddFlat → × (1 + ΣAddPct) → × ΠMul → Override`. The arithmetic is
//! the engine's floating-point work; what is decided here is everything that
//! makes it order-stable: which override wins, and the canonical order each
//! kind's values are summed or multiplied in — so the result is the same for any
//! order the modifiers arrive in.

use vstd::prelude::*;
use vstd::relations::{sorted_by, total_ordering};
use vstd::seq_lib::lemma_sorted_unique;

use crate::ids::{BuffId, StatId, TagId};
use crate::impacts::Impact;
use crate::math::Value;
use crate::scalar::{magnitude_of, sign_of, Scalar};
use crate::triggers::Reaction;

verus! {

/// How a modifier combines into its stat.
#[derive(Clone, Copy, PartialEq, Eq, Structural, Hash, Debug)]
pub enum ModOp {
    AddFlat,
    AddPct,
    Mul,
    Override,
}

/// A stat modifier as declared: the value is an expression.
#[derive(Clone, PartialEq, Debug)]
pub struct Modifier {
    pub stat: StatId,
    pub op: ModOp,
    pub value: Value,
}

/// A modifier after its value has been evaluated, ready for aggregation.
/// Among overrides the highest `priority` wins.
#[derive(Clone, Copy, PartialEq, Debug)]
pub struct ResolvedModifier {
    pub op: ModOp,
    pub value: Scalar,
    pub priority: i32,
}

/// Where the IEEE-754 `totalOrder` predicate (the order of `f32::total_cmp`)
/// places a binary32 bit pattern: negative NaNs, then `-inf`, the negatives,
/// `-0.0`, `+0.0`, the positives, `+inf` and positive NaNs. Every bit pattern has
/// its own place.
pub open spec fn total_key(bits: u32) -> int {
    if sign_of(bits) {
        -(magnitude_of(bits) as int) - 1
    } else {
        magnitude_of(bits) as int
    }
}

/// `a` is at or before `b` in the total order.
pub open spec fn total_leq() -> spec_fn(Scalar, Scalar) -> bool {
    |a: Scalar, b: Scalar| total_key(a.bits) <= total_key(b.bits)
}

/// Whether override `m` displaces `cur`: a strictly higher priority, or the same
/// priority and a value later in the total order.
pub open spec fn beats(m: ResolvedModifier, cur: ResolvedModifier) -> bool {
    m.priority > cur.priority || (m.priority == cur.priority && total_key(m.value.bits)
        > total_key(cur.value.bits))
}

/// The override that stands after reading `mods` in order: each override read
/// is taken if there is none yet or it displaces the one held.
pub open spec fn override_of(mods: Seq<ResolvedModifier>) -> Option<ResolvedModifier>
    decreases mods.len(),
{
    if mods.len() == 0 {
        None
    } else {
        let m = mods.last();
        let held = override_of(mods.drop_last());
        if m.op == ModOp::Override {
            match held {
                None => Some(m),
                Some(cur) => if beats(m, cur) {
                    Some(m)
                } else {
                    held
                },
            }
        } else {
            held
        }
    }
}

/// The values of the modifiers of kind `op`, in the order they are listed.
pub open spec fn values_of(mods: Seq<ResolvedModifier>, op: ModOp) -> Seq<Scalar>
    decreases mods.len(),
{
    if mods.len() == 0 {
        Seq::empty()
    } else if mods.last().op == op {
        values_of(mods.drop_last(), op).push(mods.last().value)
    } else {
        values_of(mods.drop_last(), op)
    }
}

/// The order in which the values of kind `op` are combined: sorted by the total
/// order.
pub open spec fn canonical_spec(mods: Seq<ResolvedModifier>, op: ModOp) -> Seq<Scalar> {
    values_of(mods, op).sort_by(total_leq())
}

/// Two bit patterns with the same place in the total order are the same.
proof fn lemma_total_key_injective(a: u32, b: u32)
    requires
        total_key(a) == total_key(b),
    ensures
        a == b,
{
    assert((a & 0x8000_0000u32 != 0) == (b & 0x8000_0000u32 != 0) && (a & 0x7fff_ffffu32) == (b
        & 0x7fff_ffffu32) ==> a == b) by (bit_vector);
}

/// The total order is a total order on numbers.
proof fn lemma_total_leq_is_total()
    ensures
        total_ordering(total_leq()),
{
    assert forall|a: Scalar, b: Scalar|
        #[trigger] (total_leq())(a, b) && #[trigger] (total_leq())(b, a) implies a == b by {
        lemma_total_key_injective(a.bits, b.bits);
    }
}

/// `a` is at or before `b` in the total order (`f32::total_cmp(a, b) != Greater`).
pub fn total_le(a: Scalar, b: Scalar) -> (r: bool)
    ensures
        r == (total_key(a.bits) <= total_key(b.bits)),
{
    let sa = a.bits & 0x8000_0000u32 != 0;
    let sb = b.bits & 0x8000_0000u32 != 0;
    let ma = a.bits & 0x7fff_ffffu32;
    let mb = b.bits & 0x7fff_ffffu32;
    if sa && sb {
        mb <= ma
    } else if sa {
        true
    } else if sb {
        false
    } else {
        ma <= mb
    }
}

/// The override among `mods` that replaces the stat outright, if any: the one
/// with the highest priority, ties broken by the larger value in the total
/// order.
pub fn winning_override(mods: &[ResolvedModifier]) -> (r: Option<ResolvedModifier>)
    ensures
        r == override_of(mods@),
{
    let mut held: Option<ResolvedModifier> = None;
    let mut i: usize = 0;
    while i < mods.len()
        invariant
            i <= mods@.len(),
            held == override_of(mods@.take(i as int)),
        decreases mods@.len() - i,
    {
        let m = mods[i];
        assert(mods@.take(i + 1).drop_last() =~= mods@.take(i as int));
        if m.op == ModOp::Override {
            let take = match held {
                None => true,
                Some(cur) => m.priority > cur.priority || (m.priority == cur.priority && !total_le(
                    m.value,
                    cur.value,
                )),
            };
            if take {
                held = Some(m);
            }
        }
        i = i + 1;
    }
    assert(mods@.take(i as int) =~= mods@);
    held
}

/// The values of the modifiers of kind `op`, in the canonical order they are
/// combined in.
pub fn canonical_values(mods: &[ResolvedModifier], op: ModOp) -> (r: Vec<Scalar>)
    ensures
        r@ == canonical_spec(mods@, op),
{
    broadcast use vstd::seq_lib::group_to_multiset_ensures;

    let mut out: Vec<Scalar> = Vec::new();
    let mut i: usize = 0;
    while i < mods.len()
        invariant
            i <= mods@.len(),
            sorted_by(out@, total_leq()),
            out@.to_multiset() == values_of(mods@.take(i as int), op).to_multiset(),
        decreases mods@.len() - i,
    {
        assert(mods@.take(i + 1).drop_last() =~= mods@.take(i as int));
        let m = mods[i];
        assert(mods@.take(i + 1).last() == m);
        if m.op == op {
            let v = m.value;
            let mut p: usize = 0;
            while p < out.len() && total_le(out[p], v)
                invariant
                    p <= out@.len(),
                    forall|k: int| 0 <= k < p ==> total_key(#[trigger] out@[k].bits) <= total_key(
                        v.bits,
                    ),
                decreases out@.len() - p,
            {
                p = p + 1;
            }
            let ghost before = out@;
            out.insert(p, v);
            assert(out@ == before.insert(p as int, v));
            assert(sorted_by(out@, total_leq())) by {
                assert forall|a: int, b: int| 0 <= a < b < out@.len() implies #[trigger] (
                total_leq())(out@[a], out@[b]) by {
                    if b < p {
                        assert((total_leq())(before[a], before[b]));
                    } else if a < p && b == p {
                    } else if a < p {
                        assert((total_leq())(before[a], before[b - 1]));
                    } else if a == p {
                        assert(p < before.len());
                        assert(!(total_key(before[p as int].bits) <= total_key(v.bits)));
                        if b - 1 > p {
                            assert((total_leq())(before[p as int], before[b - 1]));
                        }
                    } else {
                        assert((total_leq())(before[a - 1], before[b - 1]));
                    }
                }
            }
            assert(values_of(mods@.take(i + 1), op) == values_of(mods@.take(i as int), op).push(v));
            proof {
                vstd::seq_lib::to_multiset_insert(before, p as int, v);
                values_of(mods@.take(i as int), op).to_multiset_ensures();
            }
            assert(out@.to_multiset() == before.to_multiset().insert(v));
        } else {
            assert(values_of(mods@.take(i + 1), op) == values_of(mods@.take(i as int), op));
        }
        i = i + 1;
    }
    assert(mods@.take(i as int) =~= mods@);
    proof {
        lemma_total_leq_is_total();
        values_of(mods@, op).lemma_sort_by_ensures(total_leq());
        lemma_sorted_unique(out@, canonical_spec(mods@, op), total_leq());
    }
    out
}

/// What `override_of` holds: nothing exactly when no override is listed, and
/// otherwise a listed override that none of the listed overrides displaces.
proof fn lemma_override_is_best(mods: Seq<ResolvedModifier>)
    ensures
        override_of(mods) is None <==> forall|k: int|
            0 <= k < mods.len() ==> #[trigger] mods[k].op != ModOp::Override,
        override_of(mods) matches Some(r) ==> {
            &&& mods.contains(r)
            &&& r.op == ModOp::Override
            &&& forall|k: int|
                0 <= k < mods.len() && #[trigger] mods[k].op == ModOp::Override ==> !beats(
                    mods[k],
                    r,
                )
        },
    decreases mods.len(),
{
    if mods.len() > 0 {
        let rest = mods.drop_last();
        let m = mods.last();
        let n = mods.len() - 1;
        lemma_override_is_best(rest);
        assert(mods[n] == m);
        if m.op == ModOp::Override {
            assert(override_of(mods) is Some);
            let r = override_of(mods)->0;
            match override_of(rest) {
                None => {
                    assert(r == m);
                    assert(mods.contains(m));
                    assert forall|k: int|
                        0 <= k < mods.len() && #[trigger] mods[k].op == ModOp::Override implies !beats(
                        mods[k],
                        r,
                    ) by {
                        if k < n {
                            assert(rest[k] == mods[k]);
                        }
                    }
                },
                Some(cur) => {
                    let j = choose|j: int| 0 <= j < rest.len() && rest[j] == cur;
                    assert(mods[j] == cur);
                    assert(mods.contains(r));
                    assert forall|k: int|
                        0 <= k < mods.len() && #[trigger] mods[k].op == ModOp::Override implies !beats(
                        mods[k],
                        r,
                    ) by {
                        if k < n {
                            assert(rest[k] == mods[k]);
                        }
                    }
                },
            }
        } else {
            assert(override_of(mods) == override_of(rest));
            assert((forall|k: int| 0 <= k < mods.len() ==> #[trigger] mods[k].op != ModOp::Override)
                <==> (forall|k: int| 0 <= k < rest.len() ==> #[trigger] rest[k].op != ModOp::Override))
                by {
                if forall|k: int| 0 <= k < rest.len() ==> #[trigger] rest[k].op != ModOp::Override {
                    assert forall|k: int| 0 <= k < mods.len() implies #[trigger] mods[k].op
                        != ModOp::Override by {
                        if k < n {
                            assert(rest[k] == mods[k]);
                        }
                    }
                }
                if forall|k: int| 0 <= k < mods.len() ==> #[trigger] mods[k].op != ModOp::Override {
                    assert forall|k: int| 0 <= k < rest.len() implies #[trigger] rest[k].op
                        != ModOp::Override by {
                        assert(rest[k] == mods[k]);
                    }
                }
            }
            if let Some(cur) = override_of(rest) {
                let j = choose|j: int| 0 <= j < rest.len() && rest[j] == cur;
                assert(mods[j] == cur);
                assert forall|k: int|
                    0 <= k < mods.len() && #[trigger] mods[k].op == ModOp::Override implies !beats(
                    mods[k],
                    cur,
                ) by {
                    assert(k < n);
                    assert(rest[k] == mods[k]);
                }
            }
        }
    }
}

/// The values of kind `op` left after removing the modifier at `i` are the
/// values before, less that modifier's value if it was of kind `op`.
proof fn lemma_values_remove(mods: Seq<ResolvedModifier>, i: int, op: ModOp)
    requires
        0 <= i < mods.len(),
    ensures
        values_of(mods, op).to_multiset() == if mods[i].op == op {
            values_of(mods.remove(i), op).to_multiset().insert(mods[i].value)
        } else {
            values_of(mods.remove(i), op).to_multiset()
        },
    decreases mods.len(),
{
    broadcast use vstd::seq_lib::group_to_multiset_ensures;
    broadcast use vstd::multiset::group_multiset_axioms;

    if i == mods.len() - 1 {
        assert(mods.remove(i) =~= mods.drop_last());
    } else {
        let rest = mods.drop_last();
        lemma_values_remove(rest, i, op);
        assert(mods.remove(i).drop_last() =~= rest.remove(i));
        assert(mods.remove(i).last() == mods.last());
        assert(rest[i] == mods[i]);
    }
}

/// Two lists holding the same modifiers hold the same values of each kind.
proof fn lemma_values_permutation(a: Seq<ResolvedModifier>, b: Seq<ResolvedModifier>, op: ModOp)
    requires
        a.to_multiset() == b.to_multiset(),
    ensures
        values_of(a, op).to_multiset() == values_of(b, op).to_multiset(),
    decreases a.len(),
{
    broadcast use vstd::seq_lib::group_to_multiset_ensures;
    broadcast use vstd::multiset::group_multiset_axioms;

    if a.len() == 0 {
        assert(a.to_multiset().len() == a.len());
        assert(b.to_multiset().len() == b.len());
        assert(b =~= Seq::<ResolvedModifier>::empty());
    } else {
        let x = a.last();
        assert(a =~= a.drop_last().push(x));
        assert(b.to_multiset().count(x) > 0);
        assert(b.contains(x));
        let i = choose|i: int| 0 <= i < b.len() && b[i] == x;
        assert(b.remove(i).to_multiset() == a.drop_last().to_multiset());
        lemma_values_permutation(a.drop_last(), b.remove(i), op);
        lemma_values_remove(b, i, op);
    }
}

/// Aggregation does not depend on the order the modifiers arrive in: two lists
/// holding the same modifiers pick the same override and combine the values of
/// every kind in the same order.
pub proof fn law_aggregation_ignores_order(
    a: Seq<ResolvedModifier>,
    b: Seq<ResolvedModifier>,
    op: ModOp,
)
    requires
        a.to_multiset() == b.to_multiset(),
    ensures
        override_of(a) == override_of(b),
        canonical_spec(a, op) == canonical_spec(b, op),
{
    broadcast use vstd::seq_lib::group_to_multiset_ensures;

    lemma_override_is_best(a);
    lemma_override_is_best(b);
    assert forall|k: int| 0 <= k < a.len() implies b.contains(#[trigger] a[k]) by {
        assert(a.to_multiset().count(a[k]) > 0);
    }
    assert forall|k: int| 0 <= k < b.len() implies a.contains(#[trigger] b[k]) by {
        assert(b.to_multiset().count(b[k]) > 0);
    }
    match (override_of(a), override_of(b)) {
        (Some(ra), Some(rb)) => {
            let ia = choose|k: int| 0 <= k < a.len() && a[k] == ra;
            let ib = choose|k: int| 0 <= k < b.len() && b[k] == rb;
            assert(a.contains(b[ib]));
            assert(b.contains(a[ia]));
            lemma_total_key_injective(ra.value.bits, rb.value.bits);
        },
        (Some(ra), None) => {
            let ia = choose|k: int| 0 <= k < a.len() && a[k] == ra;
            assert(b.contains(a[ia]));
        },
        (None, Some(rb)) => {
            let ib = choose|k: int| 0 <= k < b.len() && b[k] == rb;
            assert(a.contains(b[ib]));
        },
        (None, None) => {},
    }
    lemma_values_permutation(a, b, op);
    lemma_total_leq_is_total();
    values_of(a, op).lemma_sort_by_ensures(total_leq());
    values_of(b, op).lemma_sort_by_ensures(total_leq());
    lemma_sorted_unique(canonical_spec(a, op), canonical_spec(b, op), total_leq());
}

/// What re-applying a buff already present does.
#[derive(Clone, Copy, PartialEq, Eq, Structural, Hash, Debug)]
pub enum Reapply {
    RefreshDuration,
    AddDuration,
    Independent,
    Ignore,
}

/// Whether stacks are counted per source or globally.
#[derive(Clone, Copy, PartialEq, Eq, Structural, Hash, Debug)]
pub enum StackScope {
    PerSource,
    Global,
}

/// The stacking rule of a buff.
#[derive(Clone, Copy, PartialEq, Eq, Structural, Hash, Debug)]
pub struct Stacking {
    pub on_reapply: Reapply,
    pub scope: StackScope,
}

/// A buff/status definition.
#[derive(Clone, PartialEq, Debug)]
pub struct BuffSpec {
    pub id: BuffId,
    pub duration: Option<Value>,
    pub stacking: Stacking,
    pub max_stacks: u16,
    pub modifiers: Vec<Modifier>,
    pub tags: Vec<TagId>,
    pub reactions: Vec<Reaction>,
    pub on_apply: Vec<Impact>,
    pub on_expire: Vec<Impact>,
    pub on_remove: Vec<Impact>,
    pub drop_on_death: bool,
}

} // verus!
