//! Finding the first occurrence of an item in a sequence.

use vstd::prelude::*;

verus! {

/// The index of the first `needle` in `items`; their length where there is
/// none.
pub open spec fn first_index<T>(items: Seq<T>, needle: T) -> int
    decreases items.len(),
{
    if items.len() == 0 || items[0] == needle {
        0
    } else {
        1 + first_index(items.drop_first(), needle)
    }
}

/// [`first_index`] is the place before which there is no needle and at
/// which, inside the sequence, there is one.
pub proof fn lemma_first_index<T>(items: Seq<T>, needle: T, at: int)
    requires
        0 <= at <= items.len(),
        forall|k: int| 0 <= k < at ==> items[k] != needle,
        at < items.len() ==> items[at] == needle,
    ensures
        first_index(items, needle) == at,
    decreases items.len(),
{
    if at > 0 {
        let rest = items.drop_first();
        assert forall|k: int| 0 <= k < at - 1 implies rest[k] != needle by {
            assert(rest[k] == items[k + 1]);
        }
        lemma_first_index(rest, needle, at - 1);
    }
}

/// What stands before [`first_index`] is no needle; what stands at it, inside
/// the sequence, is one.
pub proof fn lemma_first_index_bounds<T>(items: Seq<T>, needle: T)
    ensures
        0 <= first_index(items, needle) <= items.len(),
        forall|k: int| 0 <= k < first_index(items, needle) ==> items[k] != needle,
        first_index(items, needle) < items.len() ==> items[first_index(items, needle)] == needle,
    decreases items.len(),
{
    if !(items.len() == 0 || items[0] == needle) {
        let rest = items.drop_first();
        lemma_first_index_bounds(rest, needle);
        assert forall|k: int| 0 <= k < first_index(items, needle) implies items[k] != needle by {
            if k > 0 {
                assert(items[k] == rest[k - 1]);
            }
        }
    }
}

} // verus!
