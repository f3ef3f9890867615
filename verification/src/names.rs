//! Finding a name in a fixed list of names, the one lookup the reserved-name
//! tables share.

use vstd::prelude::*;

verus! {

/// The first index at which `name` occurs in `names`, or `None`.
pub open spec fn position_of(names: Seq<Seq<char>>, name: Seq<char>) -> Option<usize>
    decreases names.len(),
{
    if names.len() == 0 {
        None
    } else if names[0] == name {
        Some(0usize)
    } else {
        match position_of(names.drop_first(), name) {
            Some(i) => Some((i + 1) as usize),
            None => None,
        }
    }
}

/// `position_of` read from the front: the first match, and nothing matching
/// before it.
pub proof fn lemma_position_of(names: Seq<Seq<char>>, name: Seq<char>, i: int)
    requires
        0 <= i <= names.len(),
        i < usize::MAX,
        forall|j: int| 0 <= j < i ==> names[j] != name,
    ensures
        i < names.len() && names[i] == name ==> position_of(names, name) == Some(i as usize),
        i == names.len() ==> position_of(names, name) is None,
    decreases i,
{
    if i > 0 {
        lemma_position_of(names.drop_first(), name, i - 1);
    }
}

/// The first position of `name` in `names`.
pub fn find_name(names: &[&str], name: &str) -> (r: Option<usize>)
    requires
        names@.len() < usize::MAX,
    ensures
        r == position_of(names@.map_values(|s: &str| s@), name@),
{
    let ghost view = names@.map_values(|s: &str| s@);
    let owned = name.to_owned();
    let mut i: usize = 0;
    while i < names.len()
        invariant
            i <= names@.len(),
            names@.len() < usize::MAX,
            owned@ == name@,
            view == names@.map_values(|s: &str| s@),
            forall|j: int| 0 <= j < i ==> view[j] != name@,
        decreases names@.len() - i,
    {
        let candidate = names[i].to_owned();
        if candidate == owned {
            proof {
                lemma_position_of(view, name@, i as int);
            }
            return Some(i);
        }
        i = i + 1;
    }
    proof {
        lemma_position_of(view, name@, i as int);
    }
    None
}

} // verus!
