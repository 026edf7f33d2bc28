//! Facts about first occurrences in sequences, shared by the list-keeping modules.

use vstd::prelude::*;

verus! {

/// `index` is where `needle` first occurs in `items`.
pub open spec fn is_first_index<A>(items: Seq<A>, needle: A, index: int) -> bool {
    &&& 0 <= index < items.len()
    &&& items[index] == needle
    &&& forall|j: int| 0 <= j < index ==> items[j] != needle
}

pub proof fn lemma_index_of_first_is<A>(items: Seq<A>, needle: A, index: int)
    requires
        is_first_index(items, needle, index),
    ensures
        items.index_of_first(needle) == Some(index),
{
    items.index_of_first_ensures(needle);
    assert(items.contains(needle));
    let found = items.index_of_first(needle)->0;
    if found < index {
        assert(items[found] != needle);
    } else if found > index {
        assert(items[index] != needle);
    }
}

pub proof fn lemma_index_of_first_none<A>(items: Seq<A>, needle: A)
    requires
        forall|j: int| 0 <= j < items.len() ==> items[j] != needle,
    ensures
        items.index_of_first(needle) is None,
{
    items.index_of_first_ensures(needle);
    if items.contains(needle) {
        let j = choose|j: int| 0 <= j < items.len() && items[j] == needle;
        assert(items[j] != needle);
    }
}

pub proof fn lemma_index_of_first_facts<A>(items: Seq<A>, needle: A)
    ensures
        match items.index_of_first(needle) {
            Some(index) => is_first_index(items, needle, index),
            None => forall|j: int| 0 <= j < items.len() ==> items[j] != needle,
        },
{
    items.index_of_first_ensures(needle);
    if items.index_of_first(needle) is None {
        assert forall|j: int| 0 <= j < items.len() implies items[j] != needle by {
            if items[j] == needle {
                assert(items.contains(needle));
            }
        }
    }
}

} // verus!
