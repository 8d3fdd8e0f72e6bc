//! The normalized parameter string: every parameter of the request and of the
//! protocol as an encoded `key=value` pair, the pairs sorted and joined with
//! `&`.

use crate::decimal::decimal_text;
use crate::oauth::{OAuthParameters, OAuthView};
use crate::order::{lemma_text_order_total, sort_texts, text_order};
use crate::parameters::{distinct_keys, lemma_entries_of_one_map, map_of, Entries, RequestParameters};
use crate::percent::{percent_encode, percent_encoded};
use crate::text::texts;
use crate::value::ScalarView;
use vstd::prelude::*;
use vstd::relations::sorted_by;
use vstd::seq_lib::{
    lemma_multiset_commutative, lemma_sorted_unique, to_multiset_build, to_multiset_contains,
    to_multiset_insert, to_multiset_len, to_multiset_remove,
};
use vstd::string::StringExecFns;

verus! {

/// The pair of one parameter: the encoded key, `=`, and the value as it
/// enters a signature.
pub open spec fn pair(key: Seq<char>, value: ScalarView) -> Seq<char> {
    percent_encoded(key) + seq!['='] + value.signed()
}

/// The pairs of the entries, in their order.
pub open spec fn pairs(entries: Entries) -> Seq<Seq<char>> {
    Seq::new(entries.len(), |i: int| pair(entries[i].0, entries[i].1))
}

/// The texts one after the other, with the separator between each two.
pub open spec fn joined(items: Seq<Seq<char>>, separator: Seq<char>) -> Seq<char>
    decreases items.len(),
{
    if items.len() == 0 {
        Seq::empty()
    } else if items.len() == 1 {
        items[0]
    } else {
        joined(items.drop_last(), separator) + separator + items.last()
    }
}

/// The pairs of the request's and the protocol's parameters, in ascending
/// byte-lexicographic order.
pub open spec fn sorted_pairs(entries: Entries, oauth: OAuthView) -> Seq<Seq<char>> {
    pairs(entries + oauth.entries()).sort_by(text_order())
}

/// The normalized parameter string.
pub open spec fn parameter_string(entries: Entries, oauth: OAuthView) -> Seq<char> {
    joined(sorted_pairs(entries, oauth), seq!['&'])
}

/// Entries that are the same but for their order give pairs that are the
/// same but for their order.
pub proof fn lemma_pairs_of_reordered(a: Entries, b: Entries)
    requires
        a.to_multiset() == b.to_multiset(),
    ensures
        pairs(a).to_multiset() == pairs(b).to_multiset(),
    decreases a.len(),
{
    to_multiset_len(a);
    to_multiset_len(b);
    if a.len() == 0 {
        assert(pairs(a) =~= pairs(b));
    } else {
        let last = a.last();
        to_multiset_contains(a, last);
        to_multiset_contains(b, last);
        let found = choose|i: int| 0 <= i < b.len() && b[i] == last;
        let a_rest = a.drop_last();
        let b_rest = b.remove(found);
        to_multiset_remove(a, a.len() - 1);
        to_multiset_remove(b, found);
        lemma_pairs_of_reordered(a_rest, b_rest);
        let item = pair(last.0, last.1);
        assert(pairs(a) =~= pairs(a_rest).push(item));
        assert(pairs(b) =~= pairs(b_rest).insert(found, item));
        to_multiset_build(pairs(a_rest), item);
        to_multiset_insert(pairs(b_rest), found, item);
    }
}

/// The law of the normalized parameter string: its pairs stand in ascending
/// byte-lexicographic order of their encoded form, and it depends on the
/// mapping alone, not on the order in which the parameters were put in.
pub proof fn lemma_parameter_string_order(a: Entries, b: Entries, oauth: OAuthView)
    requires
        distinct_keys(a),
        distinct_keys(b),
        map_of(a) == map_of(b),
    ensures
        sorted_by(sorted_pairs(a, oauth), text_order()),
        sorted_pairs(a, oauth).to_multiset() == pairs(a + oauth.entries()).to_multiset(),
        sorted_pairs(a, oauth) == sorted_pairs(b, oauth),
        parameter_string(a, oauth) == parameter_string(b, oauth),
{
    let protocol = oauth.entries();
    lemma_text_order_total();
    pairs(a + protocol).lemma_sort_by_ensures(text_order());
    pairs(b + protocol).lemma_sort_by_ensures(text_order());
    lemma_entries_of_one_map(a, b);
    lemma_multiset_commutative(a, protocol);
    lemma_multiset_commutative(b, protocol);
    lemma_pairs_of_reordered(a + protocol, b + protocol);
    lemma_sorted_unique(sorted_pairs(a, oauth), sorted_pairs(b, oauth), text_order());
}

/// The pair of a key and a value that is already in its signed form.
pub fn encoded_pair(key: &str, signed_value: &str) -> (out: String)
    ensures
        out@ == percent_encoded(key@) + seq!['='] + signed_value@,
{
    let mut out = percent_encode(key);
    out.push('=');
    out.append(signed_value);
    out
}

/// The pair of a key and a text value.
pub fn text_pair(key: &str, value: &str) -> (out: String)
    ensures
        out@ == pair(key@, ScalarView::Text(value@)),
{
    let signed = percent_encode(value);
    encoded_pair(key, signed.as_str())
}

/// Joins texts with a separator between each two.
pub fn join(items: &[String], separator: &str) -> (out: String)
    ensures
        out@ == joined(texts(items@), separator@),
{
    let mut out = String::new();
    let mut i: usize = 0;
    let ghost all = texts(items@);
    while i < items.len()
        invariant
            i <= items@.len(),
            all == texts(items@),
            out@ == joined(all.take(i as int), separator@),
        decreases items@.len() - i,
    {
        assert(all.take(i + 1).drop_last() =~= all.take(i as int));
        if i > 0 {
            out.append(separator);
        }
        out.append(items[i].as_str());
        i += 1;
    }
    assert(all.take(i as int) =~= all);
    out
}

/// The pairs of the protocol parameters, in the order of their keys.
pub fn protocol_pairs(oauth: &OAuthParameters) -> (out: Vec<String>)
    ensures
        texts(out@) == pairs(oauth@.entries()),
{
    let timestamp = decimal_text(oauth.timestamp);
    let mut out: Vec<String> = Vec::new();
    out.push(text_pair("oauth_consumer_key", oauth.consumer_key.as_str()));
    out.push(text_pair("oauth_nonce", oauth.nonce.as_str()));
    out.push(text_pair("oauth_signature_method", "HMAC-SHA1"));
    out.push(text_pair("oauth_timestamp", timestamp.as_str()));
    out.push(text_pair("oauth_token", oauth.token.as_str()));
    out.push(text_pair("oauth_version", "1.0"));
    out
}

/// The normalized parameter string of a request.
pub fn normalized_parameter_string(parameters: &RequestParameters, oauth: &OAuthParameters) -> (out:
    String)
    ensures
        out@ == parameter_string(parameters.entries(), oauth@),
{
    let mut all: Vec<String> = Vec::new();
    let mut i: usize = 0;
    let ghost entries = parameters.entries();
    while i < parameters.len()
        invariant
            i <= entries.len(),
            entries == parameters.entries(),
            all@.len() == i,
            texts(all@) == pairs(entries.take(i as int)),
        decreases entries.len() - i,
    {
        let value = parameters.value_at(i).signed_text();
        let item = encoded_pair(parameters.key_at(i), value.as_str());
        let ghost so_far = texts(all@);
        all.push(item);
        proof {
            let now = pairs(entries.take(i + 1));
            assert forall|k: int| 0 <= k < now.len() implies texts(all@)[k] == now[k] by {
                if k < i {
                    assert(texts(all@)[k] == so_far[k]);
                }
            }
        }
        i += 1;
    }
    let mut protocol = protocol_pairs(oauth);
    let ghost before = all@;
    let ghost added = protocol@;
    all.append(&mut protocol);
    assert(texts(all@) =~= pairs(entries + oauth@.entries())) by {
        assert(texts(before + added) =~= texts(before) + texts(added));
    }
    let sorted = sort_texts(all);
    proof {
        reveal_strlit("&");
        assert("&"@ =~= seq!['&']);
    }
    join(sorted.as_slice(), "&")
}

} // verus!
