//! Lists of strings, as the models of the library see them.

use vstd::prelude::*;

verus! {

/// The texts of a list of strings, in order.
pub open spec fn texts(list: Seq<String>) -> Seq<Seq<char>> {
    Seq::new(list.len(), |i: int| list[i]@)
}

/// The index of the first of `list` that equals `item`; the length of
/// `list` where none does.
pub open spec fn first_index(list: Seq<Seq<char>>, item: Seq<char>) -> int
    decreases list.len(),
{
    if list.len() == 0 {
        0
    } else {
        let before = first_index(list.drop_last(), item);
        if before < list.len() - 1 {
            before
        } else if list.last() == item {
            list.len() - 1
        } else {
            list.len() as int
        }
    }
}

/// `first_index` gives the first index that holds `item`, and the length
/// where no index does.
pub proof fn lemma_first_index(list: Seq<Seq<char>>, item: Seq<char>)
    ensures
        0 <= first_index(list, item) <= list.len(),
        first_index(list, item) < list.len() ==> list[first_index(list, item)] == item,
        forall|j: int| 0 <= j < first_index(list, item) ==> list[j] != item,
    decreases list.len(),
{
    if list.len() > 0 {
        lemma_first_index(list.drop_last(), item);
        assert forall|j: int| 0 <= j < first_index(list, item) implies list[j] != item by {
            if j < list.len() - 1 {
                assert(list.drop_last()[j] == list[j]);
            }
        }
    }
}

/// An index that holds `item`, with none before it that does, is its first index.
pub proof fn lemma_first_index_is(list: Seq<Seq<char>>, item: Seq<char>, i: int)
    requires
        0 <= i <= list.len(),
        i < list.len() ==> list[i] == item,
        forall|j: int| 0 <= j < i ==> list[j] != item,
    ensures
        first_index(list, item) == i,
{
    lemma_first_index(list, item);
}

/// Where `item` first stands in `list`, if it is there.
pub fn find_text(list: &Vec<String>, item: &String) -> (at: Option<usize>)
    ensures
        match at {
            Some(i) => i == first_index(texts(list@), item@) && i < list@.len(),
            None => first_index(texts(list@), item@) == list@.len(),
        },
{
    let mut i: usize = 0;
    while i < list.len()
        invariant
            i <= list.len(),
            forall|j: int| 0 <= j < i ==> texts(list@)[j] != item@,
        decreases list.len() - i,
    {
        if list[i] == *item {
            proof {
                assert(texts(list@)[i as int] == item@);
                lemma_first_index_is(texts(list@), item@, i as int);
            }
            return Some(i);
        }
        i += 1;
    }
    proof {
        lemma_first_index_is(texts(list@), item@, i as int);
    }
    None
}

/// A copy of a list of strings.
pub fn copy_texts(list: &Vec<String>) -> (copy: Vec<String>)
    ensures
        texts(copy@) == texts(list@),
{
    let mut copy: Vec<String> = Vec::new();
    let mut i: usize = 0;
    while i < list.len()
        invariant
            i <= list.len(),
            copy@.len() == i,
            forall|j: int| 0 <= j < i ==> (#[trigger] copy@[j])@ == list@[j]@,
        decreases list.len() - i,
    {
        copy.push(list[i].clone());
        i += 1;
    }
    assert(texts(copy@) =~= texts(list@));
    copy
}

} // verus!
