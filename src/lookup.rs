//! Lookup by name: the first entry of a sequence that carries a given name.
use vstd::prelude::*;

verus! {

/// The position of the first of `names` equal to `name`.
pub open spec fn first_index(names: Seq<Seq<char>>, name: Seq<char>) -> Option<int>
    decreases names.len(),
{
    if names.len() == 0 {
        None
    } else if names[0] == name {
        Some(0)
    } else {
        match first_index(names.drop_first(), name) {
            Some(i) => Some(i + 1),
            None => None,
        }
    }
}

/// `first_index` is the least position that holds `name`, or `None` when no
/// position does.
pub proof fn lemma_first_index(names: Seq<Seq<char>>, name: Seq<char>)
    ensures
        match first_index(names, name) {
            Some(i) => 0 <= i < names.len() && names[i] == name && forall|j: int|
                0 <= j < i ==> names[j] != name,
            None => forall|j: int| 0 <= j < names.len() ==> names[j] != name,
        },
    decreases names.len(),
{
    if names.len() > 0 && names[0] != name {
        lemma_first_index(names.drop_first(), name);
        assert forall|j: int| 1 <= j < names.len() implies names[j] == names.drop_first()[j - 1] by {}
    }
}

/// A position that holds `name`, with none before it that does, is `first_index`.
pub proof fn lemma_first_index_at(names: Seq<Seq<char>>, name: Seq<char>, i: int)
    requires
        0 <= i < names.len(),
        names[i] == name,
        forall|j: int| 0 <= j < i ==> names[j] != name,
    ensures
        first_index(names, name) == Some(i),
{
    lemma_first_index(names, name);
}

/// When no position holds `name`, `first_index` is `None`.
pub proof fn lemma_first_index_none(names: Seq<Seq<char>>, name: Seq<char>)
    requires
        forall|j: int| 0 <= j < names.len() ==> names[j] != name,
    ensures
        first_index(names, name) == None::<int>,
{
    lemma_first_index(names, name);
}

} // verus!

verus! {

/// The position that `first_index` gives lies inside the sequence.
pub broadcast proof fn lemma_first_index_bound(names: Seq<Seq<char>>, name: Seq<char>)
    ensures
        #[trigger] first_index(names, name) matches Some(i) ==> 0 <= i < names.len(),
{
    lemma_first_index(names, name);
}

} // verus!
