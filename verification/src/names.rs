//! Lists of names (folders, envelope identifiers) and membership in them.

use vstd::prelude::*;

verus! {

/// The set of names that occur in a list.
pub open spec fn name_set(names: Seq<String>) -> Set<Seq<char>> {
    Set::new(|n: Seq<char>| exists|i: int| 0 <= i < names.len() && (#[trigger] names[i])@ == n)
}

/// Whether `name` occurs in `names`.
pub fn contains_name(names: &Vec<String>, name: &String) -> (found: bool)
    ensures
        found == name_set(names@).contains(name@),
{
    let mut i: usize = 0;
    while i < names.len()
        invariant
            i <= names.len(),
            forall|j: int| 0 <= j < i ==> (#[trigger] names@[j])@ != name@,
        decreases names.len() - i,
    {
        if names[i] == *name {
            return true;
        }
        i += 1;
    }
    false
}

/// The texts of a list of names.
pub open spec fn texts(names: Seq<String>) -> Seq<Seq<char>> {
    names.map_values(|n: String| n@)
}

/// Lists with the same texts hold the same names.
pub proof fn lemma_same_texts(a: Seq<String>, b: Seq<String>)
    requires
        texts(a) == texts(b),
    ensures
        name_set(a) == name_set(b),
{
    assert(texts(a).len() == a.len() && texts(b).len() == b.len());
    assert forall|n: Seq<char>| name_set(a).contains(n) == name_set(b).contains(n) by {
        if name_set(a).contains(n) {
            let i = choose|i: int| 0 <= i < a.len() && (#[trigger] a[i])@ == n;
            assert(texts(a)[i] == a[i]@ && texts(b)[i] == b[i]@);
        }
        if name_set(b).contains(n) {
            let i = choose|i: int| 0 <= i < b.len() && (#[trigger] b[i])@ == n;
            assert(texts(b)[i] == b[i]@ && texts(a)[i] == a[i]@);
        }
    }
    assert(name_set(a) =~= name_set(b));
}

/// A copy of a list of names.
pub fn copy_names(names: &Vec<String>) -> (copy: Vec<String>)
    ensures
        texts(copy@) == texts(names@),
        name_set(copy@) == name_set(names@),
{
    let mut copy: Vec<String> = Vec::new();
    let mut i: usize = 0;
    while i < names.len()
        invariant
            i <= names.len(),
            texts(copy@) == texts(names@.take(i as int)),
        decreases names.len() - i,
    {
        copy.push(names[i].clone());
        proof {
            assert(texts(copy@) =~= texts(names@.take(i as int)).push(names@[i as int]@));
            assert(texts(names@.take(i + 1)) =~= texts(names@.take(i as int)).push(
                names@[i as int]@,
            ));
        }
        i += 1;
    }
    proof {
        assert(names@.take(i as int) =~= names@);
        lemma_same_texts(copy@, names@);
    }
    copy
}

} // verus!
