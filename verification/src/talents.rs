//! `TalentDescriptor` — a fully generic talent: a selector (by slot, tag or id,
//! never unit identity) plus generic patches, riders, reactions and grants.
//! Also the one place a grant's slot is decided ([`GrantAbility::resolve`]) and
//! the loadout a sequence of grants folds over.

use vstd::prelude::*;

use crate::behaviors::Modifier;
use crate::common::NumOp;
use crate::ids::{AbilityId, ParamId, Slot, TagId, TalentId};
use crate::impacts::Impact;
use crate::math::Value;
use crate::tasks::QuestSpec;
use crate::text::{decimal, decimal_string, owned, push_str};
use crate::triggers::Reaction;

verus! {

/// Which abilities a talent applies to — keyed on slot, tag or id.
#[derive(Clone, Copy, PartialEq, Eq, Structural, Hash, Debug)]
pub enum AbilitySelector {
    Slot(Slot),
    Tag(TagId),
    Ability(AbilityId),
    Any,
    SelfUnit,
}

/// A generic parameter tweak: the whole "+radius / −cooldown / +charge" class.
#[derive(Clone, PartialEq, Debug)]
pub struct ParamPatch {
    pub param: ParamId,
    pub op: NumOp,
    pub value: Value,
    /// Which abilities this patch lands on, overriding the talent's own list;
    /// `None` inherits it.
    pub selector: Option<AbilitySelector>,
}

/// Which of a selected ability's own hooks a rider appends into.
#[derive(Clone, Copy, PartialEq, Eq, Structural, Hash, Debug)]
pub enum AbilityHook {
    OnCastStart,
    OnCast,
    OnHit,
}

/// Extra effects appended into a selected ability's payload.
#[derive(Clone, PartialEq, Debug)]
pub struct Rider {
    pub hook: AbilityHook,
    pub effects: Vec<Impact>,
    /// Which abilities this rider hangs off, overriding the talent's own list;
    /// `None` inherits it.
    pub selector: Option<AbilitySelector>,
}

/// Where a granted ability binds.
#[derive(Clone, Copy, PartialEq, Eq, Structural, Hash, Debug)]
pub enum GrantTarget {
    /// This slot, which is expected to be empty; an occupied slot is refused.
    Exact(Slot),
    /// This slot, whatever is in it. Always binds.
    Replace(Slot),
    /// The first slot the unit offers to grants that nothing is bound in.
    FirstFree,
}

/// Why a grant could not bind. Every variant names what the author has to
/// change.
#[derive(Clone, Copy, PartialEq, Eq, Structural, Hash, Debug)]
pub enum GrantError {
    /// An `Exact` grant named a slot already bound; `held` is what is in the way.
    Occupied { slot: Slot, held: AbilityId },
    /// A `FirstFree` grant on a unit that offers no slots to grants at all.
    NoGrantSlots,
    /// A `FirstFree` grant where every slot the unit offers is taken.
    PoolFull,
}

impl GrantError {
    /// The human-readable report of this refusal.
    pub open spec fn message_spec(self) -> Seq<char> {
        match self {
            GrantError::Occupied { slot, held } => "slot "@ + decimal(slot.0 as nat)
                + " is already bound to ability "@ + decimal(held.0 as nat),
            GrantError::NoGrantSlots => "the unit offers no slots to grants"@,
            GrantError::PoolFull => "every slot the unit offers to grants is taken"@,
        }
    }

    /// The human-readable report of this refusal.
    pub fn message(&self) -> (r: String)
        ensures
            r@ == self.message_spec(),
    {
        match self {
            GrantError::Occupied { slot, held } => {
                let mut s = owned("slot ");
                let a = decimal_string(slot.0 as u64);
                push_str(&mut s, a.as_str());
                push_str(&mut s, " is already bound to ability ");
                let b = decimal_string(held.0 as u64);
                push_str(&mut s, b.as_str());
                s
            },
            GrantError::NoGrantSlots => owned("the unit offers no slots to grants"),
            GrantError::PoolFull => owned("every slot the unit offers to grants is taken"),
        }
    }
}

/// Grant an ability into a slot — see [`GrantTarget`] for which one.
#[derive(Clone, Copy, PartialEq, Eq, Structural, Hash, Debug)]
pub struct GrantAbility {
    pub ability: AbilityId,
    pub into: GrantTarget,
}

/// What a unit has bound, slot by slot: at most one ability per slot.
#[derive(Debug)]
pub struct Loadout {
    entries: Vec<(Slot, AbilityId)>,
}

/// Whether no slot occurs twice among `entries`.
pub open spec fn distinct_slots(entries: Seq<(Slot, AbilityId)>) -> bool {
    forall|i: int, j: int|
        0 <= i < j < entries.len() ==> (#[trigger] entries[i]).0 != (#[trigger] entries[j]).0
}

/// Whether `slot` is bound among `entries`.
pub open spec fn binds(entries: Seq<(Slot, AbilityId)>, slot: Slot) -> bool {
    exists|i: int| 0 <= i < entries.len() && (#[trigger] entries[i]).0 == slot
}

/// The ability bound in `slot` among `entries` (meaningful when it is bound).
pub open spec fn bound_in(entries: Seq<(Slot, AbilityId)>, slot: Slot) -> AbilityId {
    entries[choose|i: int| 0 <= i < entries.len() && (#[trigger] entries[i]).0 == slot].1
}

/// The map that `entries` spell.
pub open spec fn loadout_map(entries: Seq<(Slot, AbilityId)>) -> Map<Slot, AbilityId> {
    Map::new(|s: Slot| binds(entries, s), |s: Slot| bound_in(entries, s))
}

proof fn lemma_bound_at(entries: Seq<(Slot, AbilityId)>, i: int)
    requires
        distinct_slots(entries),
        0 <= i < entries.len(),
    ensures
        binds(entries, entries[i].0),
        bound_in(entries, entries[i].0) == entries[i].1,
{
    let slot = entries[i].0;
    assert(binds(entries, slot));
    let k = choose|k: int| 0 <= k < entries.len() && (#[trigger] entries[k]).0 == slot;
    if k != i {
        if k < i {
            assert(entries[k].0 != entries[i].0);
        } else {
            assert(entries[i].0 != entries[k].0);
        }
    }
}

impl View for Loadout {
    type V = Map<Slot, AbilityId>;

    closed spec fn view(&self) -> Map<Slot, AbilityId> {
        loadout_map(self.entries@)
    }
}

impl Loadout {
    #[verifier::type_invariant]
    closed spec fn wf(self) -> bool {
        distinct_slots(self.entries@)
    }

    /// An empty loadout.
    pub fn new() -> (r: Self)
        ensures
            r@ == Map::<Slot, AbilityId>::empty(),
    {
        let r = Loadout { entries: Vec::new() };
        assert(r@ =~= Map::<Slot, AbilityId>::empty());
        r
    }

    /// The ability bound in `slot`, if any.
    pub fn get(&self, slot: Slot) -> (r: Option<AbilityId>)
        ensures
            r == (if self@.contains_key(slot) { Some(self@[slot]) } else { None }),
    {
        proof {
            use_type_invariant(self);
        }
        let mut i: usize = 0;
        while i < self.entries.len()
            invariant
                i <= self.entries@.len(),
                distinct_slots(self.entries@),
                forall|j: int| 0 <= j < i ==> (#[trigger] self.entries@[j]).0 != slot,
            decreases self.entries@.len() - i,
        {
            if self.entries[i].0 == slot {
                proof {
                    lemma_bound_at(self.entries@, i as int);
                }
                return Some(self.entries[i].1);
            }
            i = i + 1;
        }
        None
    }

    /// Whether anything is bound in `slot`.
    pub fn contains_key(&self, slot: Slot) -> (r: bool)
        ensures
            r == self@.contains_key(slot),
    {
        self.get(slot).is_some()
    }

    /// Bind `ability` in `slot`, replacing whatever was bound there.
    pub fn insert(&mut self, slot: Slot, ability: AbilityId)
        ensures
            final(self)@ == old(self)@.insert(slot, ability),
    {
        proof {
            use_type_invariant(&*self);
        }
        let ghost before = self.entries@;
        let mut entries: Vec<(Slot, AbilityId)> = Vec::new();
        core::mem::swap(&mut entries, &mut self.entries);
        let mut i: usize = 0;
        while i < entries.len()
            invariant
                i <= entries@.len(),
                entries@ == before,
                before == old(self).entries@,
                distinct_slots(before),
                forall|j: int| 0 <= j < i ==> (#[trigger] before[j]).0 != slot,
            decreases entries@.len() - i,
        {
            if entries[i].0 == slot {
                entries.set(i, (slot, ability));
                proof {
                    let after = entries@;
                    assert(after == before.update(i as int, (slot, ability)));
                    assert(distinct_slots(after)) by {
                        assert forall|a: int, b: int| 0 <= a < b < after.len() implies (#[trigger] after[a]).0
                            != (#[trigger] after[b]).0 by {
                            assert(before[a].0 != before[b].0);
                        }
                    }
                    assert(loadout_map(after) =~= loadout_map(before).insert(slot, ability)) by {
                        lemma_bound_at(before, i as int);
                        lemma_bound_at(after, i as int);
                        assert forall|s: Slot| #[trigger] binds(after, s) == (binds(before, s) || s == slot) by {
                            if binds(before, s) {
                                let k = choose|k: int| 0 <= k < before.len() && (#[trigger] before[k]).0 == s;
                                assert(after[k].0 == s);
                            }
                            if binds(after, s) {
                                let k = choose|k: int| 0 <= k < after.len() && (#[trigger] after[k]).0 == s;
                                if k != i {
                                    assert(before[k].0 == s);
                                }
                            }
                        }
                        assert forall|s: Slot| binds(after, s) && s != slot implies bound_in(after, s)
                            == bound_in(before, s) by {
                            let k = choose|k: int| 0 <= k < after.len() && (#[trigger] after[k]).0 == s;
                            assert(k != i);
                            lemma_bound_at(after, k);
                            lemma_bound_at(before, k);
                        }
                    }
                }
                self.entries = entries;
                return;
            }
            i = i + 1;
        }
        entries.push((slot, ability));
        proof {
            let after = entries@;
            assert(after == before.push((slot, ability)));
            assert(!binds(before, slot));
            assert(distinct_slots(after)) by {
                assert forall|a: int, b: int| 0 <= a < b < after.len() implies (#[trigger] after[a]).0
                    != (#[trigger] after[b]).0 by {
                    if b < before.len() {
                        assert(before[a].0 != before[b].0);
                    }
                }
            }
            let n = before.len() as int;
            assert(loadout_map(after) =~= loadout_map(before).insert(slot, ability)) by {
                lemma_bound_at(after, n);
                assert forall|s: Slot| #[trigger] binds(after, s) == (binds(before, s) || s == slot) by {
                    if binds(before, s) {
                        let k = choose|k: int| 0 <= k < before.len() && (#[trigger] before[k]).0 == s;
                        assert(after[k].0 == s);
                    }
                    if binds(after, s) {
                        let k = choose|k: int| 0 <= k < after.len() && (#[trigger] after[k]).0 == s;
                        if k != n {
                            assert(before[k].0 == s);
                        }
                    }
                }
                assert forall|s: Slot| binds(after, s) && s != slot implies bound_in(after, s)
                    == bound_in(before, s) by {
                    let k = choose|k: int| 0 <= k < after.len() && (#[trigger] after[k]).0 == s;
                    assert(k != n);
                    lemma_bound_at(after, k);
                    lemma_bound_at(before, k);
                }
            }
        }
        self.entries = entries;
    }
}

/// Whether `pool[i]` is the first slot of `pool` that nothing is bound in.
pub open spec fn first_free_at(bound: Map<Slot, AbilityId>, pool: Seq<Slot>, i: int) -> bool {
    &&& 0 <= i < pool.len()
    &&& !bound.contains_key(pool[i])
    &&& forall|j: int| 0 <= j < i ==> bound.contains_key(#[trigger] pool[j])
}

/// The slot a grant binds into, given the loadout as it stands and the ordered
/// slots the unit offers to grants.
pub open spec fn grant_slot(g: GrantAbility, bound: Map<Slot, AbilityId>, pool: Seq<Slot>) -> Result<Slot, GrantError> {
    match g.into {
        GrantTarget::Exact(slot) => if bound.contains_key(slot) {
            Err(GrantError::Occupied { slot, held: bound[slot] })
        } else {
            Ok(slot)
        },
        GrantTarget::Replace(slot) => Ok(slot),
        GrantTarget::FirstFree => if pool.len() == 0 {
            Err(GrantError::NoGrantSlots)
        } else if exists|i: int| first_free_at(bound, pool, i) {
            Ok(pool[choose|i: int| first_free_at(bound, pool, i)])
        } else {
            Err(GrantError::PoolFull)
        },
    }
}

impl GrantAbility {
    /// Which slot this grant binds into, given what the unit currently has
    /// `bound` and the ordered slots it offers to grants: an `Exact` slot when
    /// it is free, a `Replace` slot always, and for `FirstFree` the first
    /// offered slot nothing is bound in.
    pub fn resolve(&self, bound: &Loadout, pool: &[Slot]) -> (r: Result<Slot, GrantError>)
        ensures
            r == grant_slot(*self, bound@, pool@),
            self.into is FirstFree && pool@.len() > 0 ==> (r == Err::<Slot, GrantError>(GrantError::PoolFull) <==> forall|i: int|
                0 <= i < pool@.len() ==> bound@.contains_key(#[trigger] pool@[i])),
    {
        match self.into {
            GrantTarget::Exact(slot) => match bound.get(slot) {
                Some(held) => Err(GrantError::Occupied { slot, held }),
                None => Ok(slot),
            },
            GrantTarget::Replace(slot) => Ok(slot),
            GrantTarget::FirstFree => {
                if pool.len() == 0 {
                    return Err(GrantError::NoGrantSlots);
                }
                let mut i: usize = 0;
                while i < pool.len()
                    invariant
                        i <= pool@.len(),
                        pool@.len() > 0,
                        self.into is FirstFree,
                        forall|j: int| 0 <= j < i ==> bound@.contains_key(#[trigger] pool@[j]),
                    decreases pool@.len() - i,
                {
                    if !bound.contains_key(pool[i]) {
                        proof {
                            assert(first_free_at(bound@, pool@, i as int));
                            let w = choose|k: int| first_free_at(bound@, pool@, k);
                            if w < i {
                                assert(bound@.contains_key(pool@[w]));
                            } else if w > i {
                                assert(bound@.contains_key(pool@[i as int]));
                            }
                        }
                        return Ok(pool[i]);
                    }
                    i = i + 1;
                }
                proof {
                    assert forall|k: int| !first_free_at(bound@, pool@, k) by {
                        if 0 <= k < pool@.len() {
                            assert(bound@.contains_key(pool@[k]));
                        }
                    }
                }
                Err(GrantError::PoolFull)
            },
        }
    }
}

/// Which single ability of the caster's a talent is about, when there is one.
#[derive(Clone, Copy, PartialEq, Eq, Structural, Hash, Debug)]
pub enum AbilityFocus {
    /// The ability bound in this slot, whichever one that is.
    Slot(Slot),
    /// This ability, wherever the caster happens to be carrying it.
    Ability(AbilityId),
}

/// A generic talent.
#[derive(Clone, PartialEq, Debug)]
pub struct TalentDescriptor {
    pub id: TalentId,
    /// The abilities this talent's patches and riders apply to, unless a part
    /// names its own. An empty list selects nothing.
    pub selector: Vec<AbilitySelector>,
    pub patches: Vec<ParamPatch>,
    pub riders: Vec<Rider>,
    pub add_reactions: Vec<Reaction>,
    pub grants: Vec<GrantAbility>,
    pub modifiers: Vec<Modifier>,
    pub tags: Vec<TagId>,
    /// The task this talent sets, if it sets one.
    pub quest: Option<QuestSpec>,
}

/// The selector overrides of a talent's parts, patches first, then riders.
pub open spec fn part_overrides(t: TalentDescriptor) -> Seq<Option<AbilitySelector>> {
    t.patches@.map_values(|p: ParamPatch| p.selector) + t.riders@.map_values(|r: Rider| r.selector)
}

/// The selectors each part is governed by, concatenated in part order: a
/// part's own selector, or the talent's whole list.
pub open spec fn expand_parts(parts: Seq<Option<AbilitySelector>>, talent: Seq<AbilitySelector>) -> Seq<AbilitySelector>
    decreases parts.len(),
{
    if parts.len() == 0 {
        Seq::empty()
    } else {
        expand_parts(parts.drop_last(), talent) + match parts.last() {
            Some(sel) => seq![sel],
            None => talent,
        }
    }
}

/// `s` with every repeat dropped, keeping first occurrences in order.
pub open spec fn dedup(s: Seq<AbilitySelector>) -> Seq<AbilitySelector>
    decreases s.len(),
{
    if s.len() == 0 {
        Seq::empty()
    } else {
        let d = dedup(s.drop_last());
        if d.contains(s.last()) { d } else { d.push(s.last()) }
    }
}

/// Every selector that governs at least one patch or rider, de-duplicated and
/// in declaration order.
pub open spec fn governing(t: TalentDescriptor) -> Seq<AbilitySelector> {
    dedup(expand_parts(part_overrides(t), t.selector@))
}

/// Which one of the caster's abilities a talent changes, if that has a single
/// answer: a lone governing slot or ability selector, else a lone grant.
pub open spec fn focus_of(t: TalentDescriptor) -> Option<AbilityFocus> {
    let g = governing(t);
    let selected = if g.len() == 1 {
        match g[0] {
            AbilitySelector::Slot(slot) => Some(AbilityFocus::Slot(slot)),
            AbilitySelector::Ability(id) => Some(AbilityFocus::Ability(id)),
            _ => None,
        }
    } else {
        None
    };
    if selected is Some {
        selected
    } else if t.grants@.len() == 1 {
        Some(match t.grants@[0].into {
            GrantTarget::Exact(slot) => AbilityFocus::Slot(slot),
            GrantTarget::Replace(slot) => AbilityFocus::Slot(slot),
            GrantTarget::FirstFree => AbilityFocus::Ability(t.grants@[0].ability),
        })
    } else {
        None
    }
}

/// Whether `sel` occurs in `v`.
fn contains_selector(v: &Vec<AbilitySelector>, sel: AbilitySelector) -> (r: bool)
    ensures
        r == v@.contains(sel),
{
    let mut i: usize = 0;
    while i < v.len()
        invariant
            i <= v@.len(),
            forall|j: int| 0 <= j < i ==> v@[j] != sel,
        decreases v@.len() - i,
    {
        if v[i] == sel {
            return true;
        }
        i = i + 1;
    }
    false
}

/// Append `sel` to the de-duplicated `out` unless it is already there.
fn push_new(out: &mut Vec<AbilitySelector>, sel: AbilitySelector, Ghost(seen): Ghost<Seq<AbilitySelector>>)
    requires
        old(out)@ == dedup(seen),
    ensures
        final(out)@ == dedup(seen.push(sel)),
{
    assert(seen.push(sel).drop_last() =~= seen);
    if !contains_selector(out, sel) {
        out.push(sel);
    }
}

/// Append the governing selectors of one part.
fn push_part(
    out: &mut Vec<AbilitySelector>,
    part: Option<AbilitySelector>,
    talent: &Vec<AbilitySelector>,
    Ghost(seen): Ghost<Seq<AbilitySelector>>,
)
    requires
        old(out)@ == dedup(seen),
    ensures
        final(out)@ == dedup(seen + match part {
            Some(sel) => seq![sel],
            None => talent@,
        }),
{
    match part {
        Some(sel) => {
            push_new(out, sel, Ghost(seen));
            assert(seen.push(sel) =~= seen + seq![sel]);
        },
        None => {
            let mut k: usize = 0;
            while k < talent.len()
                invariant
                    k <= talent@.len(),
                    out@ == dedup(seen + talent@.take(k as int)),
                decreases talent@.len() - k,
            {
                push_new(out, talent[k], Ghost(seen + talent@.take(k as int)));
                assert((seen + talent@.take(k as int)).push(talent@[k as int]) =~= seen + talent@.take(k + 1));
                k = k + 1;
            }
            assert(talent@.take(talent@.len() as int) =~= talent@);
        },
    }
}

impl TalentDescriptor {
    /// Every selector that governs at least one patch or rider, de-duplicated
    /// and in declaration order: a part's own selector where it declares one,
    /// the talent's list where it does not.
    pub fn governing_selectors(&self) -> (r: Vec<AbilitySelector>)
        ensures
            r@ == governing(*self),
    {
        let mut out: Vec<AbilitySelector> = Vec::new();
        let ghost parts = part_overrides(*self);
        let np = self.patches.len();
        let mut i: usize = 0;
        assert(expand_parts(parts.take(0), self.selector@) =~= Seq::<AbilitySelector>::empty());
        while i < np
            invariant
                np == self.patches@.len(),
                parts == part_overrides(*self),
                i <= np,
                out@ == dedup(expand_parts(parts.take(i as int), self.selector@)),
            decreases np - i,
        {
            let part = self.patches[i].selector;
            assert(parts[i as int] == part);
            assert(parts.take(i + 1).drop_last() =~= parts.take(i as int));
            push_part(&mut out, part, &self.selector, Ghost(expand_parts(parts.take(i as int), self.selector@)));
            i = i + 1;
        }
        let nr = self.riders.len();
        let mut k: usize = 0;
        while k < nr
            invariant
                np == self.patches@.len(),
                nr == self.riders@.len(),
                parts == part_overrides(*self),
                parts.len() == np + nr,
                k <= nr,
                out@ == dedup(expand_parts(parts.take(np + k), self.selector@)),
            decreases nr - k,
        {
            let part = self.riders[k].selector;
            assert(parts[np + k] == part);
            assert(parts.take(np + k + 1).drop_last() =~= parts.take(np + k));
            push_part(&mut out, part, &self.selector, Ghost(expand_parts(parts.take(np + k), self.selector@)));
            k = k + 1;
        }
        assert(parts.take(np + nr) =~= parts);
        out
    }

    /// Which one of the caster's abilities this talent changes, if that question
    /// has a single answer: the lone governing selector when it names a slot or
    /// an ability, else a lone grant (its slot when authored, its ability when
    /// positional); `None` otherwise.
    pub fn changes(&self) -> (r: Option<AbilityFocus>)
        ensures
            r == focus_of(*self),
    {
        let g = self.governing_selectors();
        let selected = if g.len() == 1 {
            match g[0] {
                AbilitySelector::Slot(slot) => Some(AbilityFocus::Slot(slot)),
                AbilitySelector::Ability(id) => Some(AbilityFocus::Ability(id)),
                _ => None,
            }
        } else {
            None
        };
        if selected.is_some() {
            return selected;
        }
        if self.grants.len() == 1 {
            let only = self.grants[0];
            Some(match only.into {
                GrantTarget::Exact(slot) => AbilityFocus::Slot(slot),
                GrantTarget::Replace(slot) => AbilityFocus::Slot(slot),
                GrantTarget::FirstFree => AbilityFocus::Ability(only.ability),
            })
        } else {
            None
        }
    }

    /// The abilities one patch applies to: its own selector, or the talent's
    /// list.
    pub fn patch_selectors<'a>(&'a self, patch: &'a ParamPatch) -> (r: &'a [AbilitySelector])
        ensures
            r@ == (match patch.selector {
                Some(sel) => seq![sel],
                None => self.selector@,
            }),
    {
        Self::part_selectors(patch.selector.as_ref(), self.selector.as_slice())
    }

    /// The abilities one rider hangs off: its own selector, or the talent's list.
    pub fn rider_selectors<'a>(&'a self, rider: &'a Rider) -> (r: &'a [AbilitySelector])
        ensures
            r@ == (match rider.selector {
                Some(sel) => seq![sel],
                None => self.selector@,
            }),
    {
        Self::part_selectors(rider.selector.as_ref(), self.selector.as_slice())
    }

    /// One part's effective selector list — its override as a one-element
    /// slice, or the talent's own list.
    fn part_selectors<'a>(own: Option<&'a AbilitySelector>, talent: &'a [AbilitySelector]) -> (r: &'a [AbilitySelector])
        ensures
            r@ == (match own {
                Some(sel) => seq![*sel],
                None => talent@,
            }),
    {
        match own {
            Some(sel) => one_element(sel),
            None => talent,
        }
    }
}

/// `core::slice::from_ref`: the one-element slice holding `x`.
#[verifier::external_body]
fn one_element<'a>(x: &'a AbilitySelector) -> (r: &'a [AbilitySelector])
    ensures
        r@ == seq![*x],
{
    core::slice::from_ref(x)
}

/// A talent with no patches and no riders governs no ability at all, whatever
/// selectors it lists: its list only ever applies through a part.
pub proof fn law_a_talent_without_parts_governs_nothing(t: TalentDescriptor)
    requires
        t.patches@.len() == 0,
        t.riders@.len() == 0,
    ensures
        governing(t).len() == 0,
{
    assert(part_overrides(t) =~= Seq::<Option<AbilitySelector>>::empty());
    assert(expand_parts(part_overrides(t), t.selector@) =~= Seq::<AbilitySelector>::empty());
}

/// When a talent governs nothing and grants exactly one ability, it is about
/// the button that grant fills: a grant authored into a slot (`Exact` or
/// `Replace`) answers with that slot, the very slot the grant binds into
/// whenever it binds, and only a positional `FirstFree` grant, whose slot is
/// not known until it lands, answers with the granted ability.
pub proof fn law_a_lone_grant_names_its_button(t: TalentDescriptor, bound: Map<Slot, AbilityId>, pool: Seq<Slot>)
    requires
        t.patches@.len() == 0,
        t.riders@.len() == 0,
        t.grants@.len() == 1,
    ensures
        t.grants@[0].into matches GrantTarget::Exact(s) ==> focus_of(t) == Some(AbilityFocus::Slot(s)),
        t.grants@[0].into matches GrantTarget::Replace(s) ==> focus_of(t) == Some(AbilityFocus::Slot(s)),
        t.grants@[0].into is FirstFree ==> focus_of(t) == Some(AbilityFocus::Ability(t.grants@[0].ability)),
        !(t.grants@[0].into is FirstFree) && grant_slot(t.grants@[0], bound, pool) is Ok ==> focus_of(t) == Some(
            AbilityFocus::Slot(grant_slot(t.grants@[0], bound, pool)->Ok_0),
        ),
{
    law_a_talent_without_parts_governs_nothing(t);
}

/// A talent governed by exactly one selector that names a slot or an ability
/// is about that button, whatever it grants: the selector wins over any grant.
pub proof fn law_a_lone_selector_names_its_button(t: TalentDescriptor)
    requires
        governing(t).len() == 1,
    ensures
        governing(t)[0] matches AbilitySelector::Slot(s) ==> focus_of(t) == Some(AbilityFocus::Slot(s)),
        governing(t)[0] matches AbilitySelector::Ability(id) ==> focus_of(t) == Some(AbilityFocus::Ability(id)),
{
}

/// A talent with no single answer says so: when it is not governed by exactly
/// one slot or ability selector and does not grant exactly one ability, it is
/// about no one button. A lone tag, `Any` or the unit itself never names one.
pub proof fn law_no_single_button_is_none(t: TalentDescriptor)
    requires
        !(governing(t).len() == 1 && (governing(t)[0] is Slot || governing(t)[0] is Ability)),
        t.grants@.len() != 1,
    ensures
        focus_of(t) is None,
{
}

} // verus!
