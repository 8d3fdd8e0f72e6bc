//! Byte-lexicographic order on texts, and sorting by it.

use crate::text::texts;
use vstd::prelude::*;
use vstd::relations::{sorted_by, total_ordering};
use vstd::seq_lib::{
    lemma_multiset_commutative, lemma_sorted_unique, to_multiset_build, to_multiset_insert,
};
use vstd::utf8::{
    encode_utf8, encode_utf8_decode_utf8, is_ascii_chars, is_ascii_chars_encode_utf8,
};

verus! {

/// Whether `a` comes no later than `b` in lexicographic order of bytes: at
/// the first place where they differ `a` has the smaller byte, or `a` is a
/// prefix of `b`.
pub open spec fn bytes_le(a: Seq<u8>, b: Seq<u8>) -> bool
    decreases a.len(),
{
    if a.len() == 0 {
        true
    } else if b.len() == 0 {
        false
    } else if a[0] != b[0] {
        a[0] < b[0]
    } else {
        bytes_le(a.drop_first(), b.drop_first())
    }
}

/// Whether text `a` comes no later than text `b` in lexicographic order of
/// their UTF-8 bytes.
pub open spec fn text_le(a: Seq<char>, b: Seq<char>) -> bool {
    bytes_le(encode_utf8(a), encode_utf8(b))
}

/// [`text_le`] as a relation.
pub open spec fn text_order() -> spec_fn(Seq<char>, Seq<char>) -> bool {
    |a: Seq<char>, b: Seq<char>| text_le(a, b)
}

/// Every byte sequence comes no later than itself.
pub proof fn lemma_bytes_le_reflexive(a: Seq<u8>)
    ensures
        bytes_le(a, a),
    decreases a.len(),
{
    if a.len() > 0 {
        lemma_bytes_le_reflexive(a.drop_first());
    }
}

/// Two byte sequences of which each comes no later than the other are one.
pub proof fn lemma_bytes_le_antisymmetric(a: Seq<u8>, b: Seq<u8>)
    requires
        bytes_le(a, b),
        bytes_le(b, a),
    ensures
        a == b,
    decreases a.len(),
{
    if a.len() == 0 || b.len() == 0 {
        assert(a =~= b);
    } else {
        lemma_bytes_le_antisymmetric(a.drop_first(), b.drop_first());
        assert(a =~= seq![a[0]] + a.drop_first());
        assert(b =~= seq![b[0]] + b.drop_first());
    }
}

/// The order of byte sequences carries over a sequence in between.
pub proof fn lemma_bytes_le_transitive(a: Seq<u8>, b: Seq<u8>, c: Seq<u8>)
    requires
        bytes_le(a, b),
        bytes_le(b, c),
    ensures
        bytes_le(a, c),
    decreases a.len(),
{
    if a.len() > 0 && a[0] == b[0] && b[0] == c[0] {
        lemma_bytes_le_transitive(a.drop_first(), b.drop_first(), c.drop_first());
    }
}

/// Of two byte sequences one comes no later than the other.
pub proof fn lemma_bytes_le_connected(a: Seq<u8>, b: Seq<u8>)
    ensures
        bytes_le(a, b) || bytes_le(b, a),
    decreases a.len(),
{
    if a.len() > 0 && b.len() > 0 && a[0] == b[0] {
        lemma_bytes_le_connected(a.drop_first(), b.drop_first());
    }
}

/// Two byte sequences that agree up to a place where the first one ends, or
/// where it has the smaller byte, are in order.
pub proof fn lemma_bytes_le_from(a: Seq<u8>, b: Seq<u8>, at: int)
    requires
        0 <= at <= a.len(),
        at <= b.len(),
        forall|k: int| 0 <= k < at ==> a[k] == b[k],
        at == a.len() || (at < b.len() && a[at] < b[at]),
    ensures
        bytes_le(a, b),
    decreases a.len(),
{
    if at > 0 {
        let x = a.drop_first();
        let y = b.drop_first();
        assert forall|k: int| 0 <= k < at - 1 implies x[k] == y[k] by {
            assert(x[k] == a[k + 1] && y[k] == b[k + 1]);
        }
        lemma_bytes_le_from(x, y, at - 1);
    }
}

/// Two ASCII texts that agree up to a place where the first one ends, or
/// where it has the smaller character, are in order.
pub proof fn lemma_ascii_text_le(a: Seq<char>, b: Seq<char>, at: int)
    requires
        is_ascii_chars(a),
        is_ascii_chars(b),
        0 <= at <= a.len(),
        at <= b.len(),
        forall|k: int| 0 <= k < at ==> a[k] == b[k],
        at == a.len() || (at < b.len() && a[at] < b[at]),
    ensures
        text_le(a, b),
{
    is_ascii_chars_encode_utf8(a);
    is_ascii_chars_encode_utf8(b);
    lemma_bytes_le_from(encode_utf8(a), encode_utf8(b), at);
}

/// Byte-lexicographic order on texts is a total order.
pub proof fn lemma_text_order_total()
    ensures
        total_ordering(text_order()),
{
    let r = text_order();
    assert forall|x: Seq<char>| #[trigger] r(x, x) by {
        lemma_bytes_le_reflexive(encode_utf8(x));
    }
    assert forall|x: Seq<char>, y: Seq<char>| #[trigger] r(x, y) && #[trigger] r(y, x) implies x
        == y by {
        lemma_bytes_le_antisymmetric(encode_utf8(x), encode_utf8(y));
        encode_utf8_decode_utf8(x);
        encode_utf8_decode_utf8(y);
    }
    assert forall|x: Seq<char>, y: Seq<char>, z: Seq<char>| #[trigger] r(x, y) && #[trigger] r(
        y,
        z,
    ) implies r(x, z) by {
        lemma_bytes_le_transitive(encode_utf8(x), encode_utf8(y), encode_utf8(z));
    }
    assert forall|x: Seq<char>, y: Seq<char>| #[trigger] r(x, y) || #[trigger] r(y, x) by {
        lemma_bytes_le_connected(encode_utf8(x), encode_utf8(y));
    }
}

/// The sorted form of a sequence of texts is the one sequence that holds the
/// same texts, each as often, in ascending order.
pub proof fn lemma_sorted_form(items: Seq<Seq<char>>, sorted: Seq<Seq<char>>)
    requires
        sorted_by(sorted, text_order()),
        sorted.to_multiset() == items.to_multiset(),
    ensures
        sorted == items.sort_by(text_order()),
{
    lemma_text_order_total();
    items.lemma_sort_by_ensures(text_order());
    lemma_sorted_unique(sorted, items.sort_by(text_order()), text_order());
}

/// Whether `a` comes no later than `b` in byte-lexicographic order.
pub fn text_precedes(a: &str, b: &str) -> (r: bool)
    ensures
        r == text_le(a@, b@),
{
    let x = a.as_bytes();
    let y = b.as_bytes();
    let mut i: usize = 0;
    assert(x@.skip(0) =~= x@ && y@.skip(0) =~= y@);
    while i < x.len() && i < y.len()
        invariant
            i <= x@.len(),
            i <= y@.len(),
            x@ == encode_utf8(a@),
            y@ == encode_utf8(b@),
            bytes_le(x@, y@) == bytes_le(x@.skip(i as int), y@.skip(i as int)),
        decreases x@.len() - i,
    {
        proof {
            assert(x@.skip(i as int).drop_first() =~= x@.skip(i + 1));
            assert(y@.skip(i as int).drop_first() =~= y@.skip(i + 1));
        }
        if x[i] != y[i] {
            return x[i] < y[i];
        }
        i += 1;
    }
    i == x.len()
}

/// Sorts texts into ascending byte-lexicographic order. Texts that occur
/// more than once stay as often as they came.
pub fn sort_texts(items: Vec<String>) -> (sorted: Vec<String>)
    ensures
        texts(sorted@) == texts(items@).sort_by(text_order()),
        sorted_by(texts(sorted@), text_order()),
        texts(sorted@).to_multiset() == texts(items@).to_multiset(),
{
    let ghost all = texts(items@);
    let mut pending = items;
    let mut sorted: Vec<String> = Vec::new();
    proof {
        lemma_text_order_total();
        lemma_multiset_commutative(texts(sorted@), all);
    }
    while pending.len() > 0
        invariant
            total_ordering(text_order()),
            sorted_by(texts(sorted@), text_order()),
            texts(sorted@).to_multiset().add(texts(pending@).to_multiset()) == all.to_multiset(),
        decreases pending@.len(),
    {
        let ghost pending_before = texts(pending@);
        let ghost sorted_before = texts(sorted@);
        let item = pending.pop().unwrap();
        let mut at: usize = 0;
        while at < sorted.len() && text_precedes(sorted[at].as_str(), item.as_str())
            invariant
                at <= sorted@.len(),
                forall|k: int| 0 <= k < at ==> text_le(#[trigger] texts(sorted@)[k], item@),
            decreases sorted@.len() - at,
        {
            at += 1;
        }
        sorted.insert(at, item);
        proof {
            let order = text_order();
            let now = texts(sorted@);
            assert(now =~= sorted_before.insert(at as int, item@));
            assert(pending_before =~= texts(pending@).push(item@));
            to_multiset_build(texts(pending@), item@);
            to_multiset_insert(sorted_before, at as int, item@);
            assert forall|i: int, j: int| 0 <= i < j < now.len() implies #[trigger] order(
                now[i],
                now[j],
            ) by {
                if j < at {
                    assert(order(sorted_before[i], sorted_before[j]));
                } else if j == at {
                    assert(text_le(sorted_before[i], item@));
                } else if i == at {
                    assert(order(sorted_before[at as int], item@) || order(item@, sorted_before[at as int]));
                    if j - 1 > at {
                        assert(order(sorted_before[at as int], sorted_before[j - 1]));
                    }
                    assert(order(item@, sorted_before[j - 1]));
                } else if i < at {
                    assert(order(sorted_before[i], sorted_before[j - 1]));
                } else {
                    assert(order(sorted_before[i - 1], sorted_before[j - 1]));
                }
            }
        }
    }
    proof {
        lemma_multiset_commutative(texts(sorted@), texts(pending@));
        lemma_sorted_form(all, texts(sorted@));
    }
    sorted
}

} // verus!
