//! A generic string interner: stable name -> dense [`Handle`], resolved once at
//! adoption so the running simulation never sees a string.
//!
//! One interner instance backs one id family (an `Interner<StatId>`, an
//! `Interner<TagId>`, …). Interning is idempotent and injective, and mints a
//! contiguous `0..len` index space so handles are array-indexable in hot loops.
//!
//! The interner is its own name table: `raw index -> name`, with no name held
//! twice. A lookup walks that table.

use vstd::prelude::*;
use core::marker::PhantomData;

use crate::ids::Handle;

verus! {

/// Whether no name occurs twice in `names`.
pub open spec fn distinct_names(names: Seq<Seq<char>>) -> bool {
    forall|i: int, j: int|
        0 <= i < names.len() && 0 <= j < names.len() && i != j ==> names[i] != names[j]
}

/// The name table after interning `name`: unchanged when the name is already
/// there, otherwise the name appended at the next raw index.
pub open spec fn interned(names: Seq<Seq<char>>, name: Seq<char>) -> Seq<Seq<char>> {
    if names.contains(name) {
        names
    } else {
        names.push(name)
    }
}

/// The raw index `name` sits at in `names` (meaningful when it is there).
pub open spec fn index_of(names: Seq<Seq<char>>, name: Seq<char>) -> int {
    choose|i: int| 0 <= i < names.len() && names[i] == name
}

/// Maps stable names to compact [`Handle`]s of one family, and back.
pub struct Interner<H: Handle> {
    /// `raw index -> name`; also the source of truth for `len` and density.
    names: Vec<String>,
    _family: PhantomData<H>,
}

impl<H: Handle> Interner<H> {
    /// The name table: `raw index -> name`.
    pub closed spec fn view(&self) -> Seq<Seq<char>> {
        self.names@.map_values(|s: String| s@)
    }

    /// The table never holds a name twice, and every index it holds is one the
    /// family can represent.
    #[verifier::type_invariant]
    closed spec fn well_formed(self) -> bool {
        &&& distinct_names(self.view())
        &&& self.names@.len() <= H::max_raw_spec() as int + 1
    }

    /// An empty interner.
    pub fn new() -> (r: Self)
        ensures
            r.view() == Seq::<Seq<char>>::empty(),
    {
        let r = Interner { names: Vec::new(), _family: PhantomData };
        assert(r.view() =~= Seq::<Seq<char>>::empty());
        r
    }

    /// The raw index of `name`, if interned.
    fn position(&self, name: &str) -> (r: Option<usize>)
        ensures
            match r {
                Some(i) => i < self.view().len() && self.view()[i as int] == name@,
                None => !self.view().contains(name@),
            },
    {
        let owned = name.to_owned();
        let mut i: usize = 0;
        while i < self.names.len()
            invariant
                i <= self.names@.len(),
                owned@ == name@,
                forall|j: int| 0 <= j < i ==> self.view()[j] != name@,
            decreases self.names@.len() - i,
        {
            if self.names[i] == owned {
                return Some(i);
            }
            i = i + 1;
        }
        proof {
            assert forall|s| self.view().contains(s) implies s != name@ by {
                let j = choose|j: int| 0 <= j < self.view().len() && self.view()[j] == s;
            }
        }
        None
    }

    /// Intern `name`, returning its stable handle. Idempotent: the same name
    /// always maps to the same handle for the life of the interner.
    ///
    /// A new name takes the next raw index, which the family must be able to
    /// represent.
    pub fn intern(&mut self, name: &str) -> (h: H)
        requires
            old(self).view().contains(name@) || old(self).view().len() <= H::max_raw_spec(),
        ensures
            final(self).view() == interned(old(self).view(), name@),
            0 <= h.raw_spec() < final(self).view().len(),
            final(self).view()[h.raw_spec() as int] == name@,
            h.raw_spec() == index_of(final(self).view(), name@),
            distinct_names(final(self).view()),
            final(self).view().len() <= H::max_raw_spec() as int + 1,
    {
        proof {
            use_type_invariant(&*self);
        }
        match self.position(name) {
            Some(i) => {
                let h = H::from_raw(i as u32);
                proof {
                    lemma_index_of_distinct(self.view(), name@, i as int);
                }
                h
            },
            None => {
                let raw = self.names.len() as u32;
                let ghost before = self.view();
                let mut names: Vec<String> = Vec::new();
                core::mem::swap(&mut names, &mut self.names);
                names.push(name.to_owned());
                proof {
                    assert(names@.map_values(|s: String| s@) =~= before.push(name@));
                }
                self.names = names;
                let h = H::from_raw(raw);
                proof {
                    assert(self.view() =~= before.push(name@));
                    assert(distinct_names(self.view()));
                    lemma_index_of_distinct(self.view(), name@, raw as int);
                }
                h
            },
        }
    }

    /// The handle a name was interned as, if it has been interned.
    pub fn get(&self, name: &str) -> (r: Option<H>)
        ensures
            r is Some <==> self.view().contains(name@),
            r matches Some(h) ==> h.raw_spec() == index_of(self.view(), name@)
                && self.view()[h.raw_spec() as int] == name@,
    {
        proof {
            use_type_invariant(self);
        }
        match self.position(name) {
            Some(i) => {
                proof {
                    lemma_index_of_distinct(self.view(), name@, i as int);
                }
                Some(H::from_raw(i as u32))
            },
            None => None,
        }
    }

    /// Whether [`Interner::intern`] can take `name`: it is interned already, or
    /// the family still has a raw index left to give it.
    pub fn has_room(&self, name: &str) -> (r: bool)
        ensures
            r == (self.view().contains(name@) || self.view().len() <= H::max_raw_spec()),
    {
        match self.get(name) {
            Some(_) => true,
            None => self.len() <= H::max_raw() as usize,
        }
    }

    /// The name behind a handle, if the handle came from this interner.
    pub fn resolve(&self, handle: H) -> (r: Option<&str>)
        ensures
            r is Some <==> handle.raw_spec() < self.view().len(),
            r matches Some(s) ==> s@ == self.view()[handle.raw_spec() as int],
    {
        let raw = handle.raw();
        if (raw as usize) < self.names.len() {
            Some(self.names[raw as usize].as_str())
        } else {
            None
        }
    }

    /// Number of distinct interned names (also the exclusive upper bound of the
    /// contiguous handle index space).
    pub fn len(&self) -> (r: usize)
        ensures
            r == self.view().len(),
            r <= H::max_raw_spec() as int + 1,
            distinct_names(self.view()),
    {
        proof {
            use_type_invariant(self);
        }
        self.names.len()
    }

    /// Whether nothing has been interned yet.
    pub fn is_empty(&self) -> (r: bool)
        ensures
            r == (self.view().len() == 0),
    {
        self.names.len() == 0
    }
}

impl<H: Handle> Default for Interner<H> {
    fn default() -> (r: Self)
        ensures
            r.view() == Seq::<Seq<char>>::empty(),
    {
        Self::new()
    }
}

/// In a table with no repeats, the index a name sits at is the one
/// [`index_of`] names.
pub proof fn lemma_index_of_distinct(names: Seq<Seq<char>>, name: Seq<char>, i: int)
    requires
        distinct_names(names),
        0 <= i < names.len(),
        names[i] == name,
    ensures
        index_of(names, name) == i,
{
    let j = index_of(names, name);
    assert(0 <= j < names.len() && names[j] == name);
}

/// A handle is its raw index. So the handle [`Interner::intern`] returns for a
/// name is the very handle [`Interner::get`] later gives for it, and the one
/// [`Interner::resolve`] reads the name back from: all three are fixed by the
/// name's index.
pub proof fn law_handle_is_its_index<H: Handle>(a: H, b: H)
    requires
        a.raw_spec() == b.raw_spec(),
    ensures
        a == b,
{
    H::lemma_raw_determines(a, b);
}

/// Interning is idempotent: interning a name a second time changes nothing, and
/// it keeps the handle the first interning minted.
pub proof fn law_intern_idempotent(names: Seq<Seq<char>>, name: Seq<char>)
    ensures
        interned(interned(names, name), name) == interned(names, name),
        index_of(interned(interned(names, name), name), name) == index_of(interned(names, name), name),
{
    assert(interned(names, name).contains(name)) by {
        if !names.contains(name) {
            assert(names.push(name)[names.len() as int] == name);
        }
    }
}

/// Interning never moves a name already interned, and keeps the table free of
/// repeats: handles stay stable and distinct names keep distinct handles.
pub proof fn law_intern_stable(names: Seq<Seq<char>>, name: Seq<char>, other: Seq<char>)
    requires
        distinct_names(names),
        names.contains(other),
    ensures
        distinct_names(interned(names, name)),
        index_of(interned(names, name), other) == index_of(names, other),
        other != name ==> index_of(interned(names, name), name) != index_of(names, other),
{
    let after = interned(names, name);
    let i = index_of(names, other);
    lemma_index_of_distinct(names, other, i);
    if !names.contains(name) {
        assert forall|a: int, b: int|
            0 <= a < after.len() && 0 <= b < after.len() && a != b implies after[a] != after[b] by {
            if a == names.len() as int {
                assert(names[b] != name);
            } else if b == names.len() as int {
                assert(names[a] != name);
            }
        }
        assert(after[i] == other);
        lemma_index_of_distinct(after, other, i);
        if other != name {
            lemma_index_of_distinct(after, name, names.len() as int);
        }
    } else {
        if other != name {
            let k = choose|k: int| 0 <= k < names.len() && names[k] == name;
            lemma_index_of_distinct(names, name, k);
        }
    }
}

/// Handles are dense: interning a new name mints exactly the next raw index, the
/// table's previous length.
pub proof fn law_intern_dense(names: Seq<Seq<char>>, name: Seq<char>)
    requires
        distinct_names(names),
        !names.contains(name),
    ensures
        interned(names, name).len() == names.len() + 1,
        index_of(interned(names, name), name) == names.len(),
{
    let after = interned(names, name);
    assert forall|a: int, b: int|
        0 <= a < after.len() && 0 <= b < after.len() && a != b implies after[a] != after[b] by {
        if a == names.len() as int {
            assert(names[b] != name);
        } else if b == names.len() as int {
            assert(names[a] != name);
        }
    }
    lemma_index_of_distinct(after, name, names.len() as int);
}


/// The name table after interning every name of `more`, in order.
pub open spec fn interned_all(names: Seq<Seq<char>>, more: Seq<Seq<char>>) -> Seq<Seq<char>>
    decreases more.len(),
{
    if more.len() == 0 {
        names
    } else {
        interned(interned_all(names, more.drop_last()), more.last())
    }
}

/// Interning only ever appends: the table before is a prefix of the table after.
proof fn lemma_interned_all_extends(names: Seq<Seq<char>>, more: Seq<Seq<char>>)
    ensures
        interned_all(names, more).len() >= names.len(),
        interned_all(names, more).take(names.len() as int) == names,
    decreases more.len(),
{
    if more.len() > 0 {
        lemma_interned_all_extends(names, more.drop_last());
        let before = interned_all(names, more.drop_last());
        if !before.contains(more.last()) {
            assert(before.push(more.last()).take(names.len() as int) =~= before.take(names.len() as int));
        }
    }
}

/// Interning keeps a table free of repeats.
proof fn lemma_interned_all_distinct(names: Seq<Seq<char>>, more: Seq<Seq<char>>)
    requires
        distinct_names(names),
    ensures
        distinct_names(interned_all(names, more)),
    decreases more.len(),
{
    if more.len() > 0 {
        lemma_interned_all_distinct(names, more.drop_last());
        let before = interned_all(names, more.drop_last());
        if !before.contains(more.last()) {
            law_intern_dense(before, more.last());
            let after = before.push(more.last());
            assert forall|a: int, b: int|
                0 <= a < after.len() && 0 <= b < after.len() && a != b implies after[a] != after[b] by {
                if a == before.len() as int {
                    assert(before[b] != more.last());
                } else if b == before.len() as int {
                    assert(before[a] != more.last());
                }
            }
        }
    }
}

/// A handle keeps its name for the life of the interner: after any number of
/// later interns, the name a handle was minted for still sits at its raw index,
/// so [`Interner::resolve`] gives it back and [`Interner::get`] gives the same
/// handle for it, and every index the earlier table held keeps its name.
pub proof fn law_handles_outlive_later_interns(names: Seq<Seq<char>>, more: Seq<Seq<char>>, name: Seq<char>)
    requires
        distinct_names(names),
        names.contains(name),
    ensures
        interned_all(names, more).take(names.len() as int) == names,
        interned_all(names, more)[index_of(names, name)] == name,
        index_of(interned_all(names, more), name) == index_of(names, name),
        distinct_names(interned_all(names, more)),
{
    lemma_interned_all_extends(names, more);
    lemma_interned_all_distinct(names, more);
    let after = interned_all(names, more);
    let k = index_of(names, name);
    assert(after.take(names.len() as int)[k] == names[k]);
    lemma_index_of_distinct(after, name, k);
}

/// Interning names that are all new, one after another, lists them in that
/// order: the `i`-th new name takes raw index `i` past the table's old length,
/// and the old names keep theirs.
pub proof fn law_new_names_take_the_next_indices(names: Seq<Seq<char>>, more: Seq<Seq<char>>)
    requires
        distinct_names(names + more),
    ensures
        interned_all(names, more) == names + more,
        forall|i: int| 0 <= i < more.len() ==> index_of(interned_all(names, more), #[trigger] more[i]) == names.len() + i,
    decreases more.len(),
{
    if more.len() > 0 {
        let rest = more.drop_last();
        assert(names + rest =~= (names + more).drop_last());
        assert forall|a: int, b: int|
            0 <= a < (names + rest).len() && 0 <= b < (names + rest).len() && a != b implies (names + rest)[a] != (
            names + rest)[b] by {
            assert((names + rest)[a] == (names + more)[a]);
            assert((names + rest)[b] == (names + more)[b]);
        }
        law_new_names_take_the_next_indices(names, rest);
        let before = names + rest;
        assert(!before.contains(more.last())) by {
            if before.contains(more.last()) {
                let j = choose|j: int| 0 <= j < before.len() && before[j] == more.last();
                assert((names + more)[j] == (names + more)[(names + more).len() - 1]);
            }
        }
        assert(before.push(more.last()) =~= names + more);
    } else {
        assert(names + more =~= names);
    }
    let all = names + more;
    assert forall|i: int| 0 <= i < more.len() implies index_of(interned_all(names, more), #[trigger] more[i]) == names.len() + i by {
        assert(all[names.len() + i] == more[i]);
        lemma_index_of_distinct(all, more[i], names.len() + i);
    }
}

} // verus!
