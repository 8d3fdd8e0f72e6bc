//! The parameters of a request: a mapping from keys to scalar values, and
//! how it comes out of a template's parameters and the overrides.

use crate::find::{first_index, lemma_first_index, lemma_first_index_bounds};
use crate::text::same_text;
use crate::value::{ScalarValue, ScalarView};
use vstd::prelude::*;
use vstd::seq_lib::{to_multiset_build, to_multiset_insert};

verus! {

/// Keys with their values, in some order.
pub type Entries = Seq<(Seq<char>, ScalarView)>;

/// Whether no key stands twice.
pub open spec fn distinct_keys(entries: Entries) -> bool {
    forall|i: int, j: int| 0 <= i < j < entries.len() ==> entries[i].0 != entries[j].0
}

/// The mapping that a sequence of entries spells out; of two entries with
/// one key the later one counts.
pub open spec fn map_of(entries: Entries) -> Map<Seq<char>, ScalarView>
    decreases entries.len(),
{
    if entries.len() == 0 {
        Map::empty()
    } else {
        map_of(entries.drop_last()).insert(entries.last().0, entries.last().1)
    }
}

/// The keys of [`map_of`] are the keys of the entries.
pub proof fn lemma_map_of_keys(entries: Entries, key: Seq<char>)
    ensures
        map_of(entries).contains_key(key) <==> exists|i: int|
            0 <= i < entries.len() && (#[trigger] entries[i]).0 == key,
    decreases entries.len(),
{
    if entries.len() > 0 {
        let front = entries.drop_last();
        lemma_map_of_keys(front, key);
        if map_of(entries).contains_key(key) {
            if entries.last().0 == key {
                assert(entries[entries.len() - 1].0 == key);
            } else {
                let i = choose|i: int| 0 <= i < front.len() && (#[trigger] front[i]).0 == key;
                assert(entries[i].0 == key);
            }
        }
        if exists|i: int| 0 <= i < entries.len() && (#[trigger] entries[i]).0 == key {
            let i = choose|i: int| 0 <= i < entries.len() && (#[trigger] entries[i]).0 == key;
            if i < front.len() {
                assert(front[i].0 == key);
            }
        }
    }
}

/// Where no key stands twice, each entry's key maps to that entry's value.
pub proof fn lemma_map_of_value(entries: Entries, at: int)
    requires
        distinct_keys(entries),
        0 <= at < entries.len(),
    ensures
        map_of(entries).contains_key(entries[at].0),
        map_of(entries)[entries[at].0] == entries[at].1,
    decreases entries.len(),
{
    if at < entries.len() - 1 {
        let front = entries.drop_last();
        assert forall|i: int, j: int| 0 <= i < j < front.len() implies front[i].0 != front[j].0 by {
            assert(front[i] == entries[i] && front[j] == entries[j]);
        }
        lemma_map_of_value(front, at);
    }
}

/// Where no key stands twice, giving an entry a new value is inserting that
/// value under the entry's key.
pub proof fn lemma_map_of_update(entries: Entries, at: int, value: ScalarView)
    requires
        distinct_keys(entries),
        0 <= at < entries.len(),
    ensures
        map_of(entries.update(at, (entries[at].0, value))) == map_of(entries).insert(
            entries[at].0,
            value,
        ),
        distinct_keys(entries.update(at, (entries[at].0, value))),
    decreases entries.len(),
{
    let key = entries[at].0;
    let changed = entries.update(at, (key, value));
    let front = entries.drop_last();
    if at == entries.len() - 1 {
        assert(changed.drop_last() =~= front);
    } else {
        assert forall|i: int, j: int| 0 <= i < j < front.len() implies front[i].0 != front[j].0 by {
            assert(front[i] == entries[i] && front[j] == entries[j]);
        }
        lemma_map_of_update(front, at, value);
        assert(changed.drop_last() =~= front.update(at, (key, value)));
    }
    assert forall|i: int, j: int| 0 <= i < j < changed.len() implies changed[i].0 != changed[j].0 by {
        assert(changed[i].0 == entries[i].0 && changed[j].0 == entries[j].0);
    }
}

/// Where no key stands twice, taking an entry out takes its key out of the
/// mapping and leaves the rest as it was.
pub proof fn lemma_map_of_remove(entries: Entries, at: int)
    requires
        distinct_keys(entries),
        0 <= at < entries.len(),
    ensures
        map_of(entries.remove(at)) == map_of(entries).remove(entries[at].0),
        distinct_keys(entries.remove(at)),
    decreases entries.len(),
{
    let key = entries[at].0;
    let front = entries.drop_last();
    let left = entries.remove(at);
    assert forall|i: int, j: int| 0 <= i < j < left.len() implies left[i].0 != left[j].0 by {
        let from_i = if i < at { i } else { i + 1 };
        let from_j = if j < at { j } else { j + 1 };
        assert(left[i] == entries[from_i] && left[j] == entries[from_j]);
    }
    assert forall|i: int, j: int| 0 <= i < j < front.len() implies front[i].0 != front[j].0 by {
        assert(front[i] == entries[i] && front[j] == entries[j]);
    }
    if at == entries.len() - 1 {
        lemma_map_of_keys(front, key);
        if map_of(front).contains_key(key) {
            let i = choose|i: int| 0 <= i < front.len() && (#[trigger] front[i]).0 == key;
            assert(entries[i].0 == key);
        }
    } else {
        lemma_map_of_remove(front, at);
        assert(left.drop_last() =~= front.remove(at));
    }
}

/// Two sequences of entries without a repeated key that spell out the same
/// mapping hold the same entries, in whatever order.
pub proof fn lemma_entries_of_one_map(a: Entries, b: Entries)
    requires
        distinct_keys(a),
        distinct_keys(b),
        map_of(a) == map_of(b),
    ensures
        a.to_multiset() == b.to_multiset(),
    decreases a.len(),
{
    if a.len() == 0 {
        if b.len() > 0 {
            lemma_map_of_keys(b, b[0].0);
        }
        assert(a =~= b);
    } else {
        let last = a.last();
        let at = a.len() - 1;
        lemma_map_of_value(a, at);
        lemma_map_of_keys(b, last.0);
        let found = choose|i: int| 0 <= i < b.len() && (#[trigger] b[i]).0 == last.0;
        lemma_map_of_value(b, found);
        lemma_map_of_remove(a, at);
        lemma_map_of_remove(b, found);
        lemma_entries_of_one_map(a.drop_last(), b.remove(found));
        assert(a =~= a.drop_last().push(last));
        assert(b =~= b.remove(found).insert(found, last));
        to_multiset_build(a.drop_last(), last);
        to_multiset_insert(b.remove(found), found, last);
    }
}

/// The keys of the entries, in their order.
pub open spec fn keys(entries: Entries) -> Seq<Seq<char>> {
    Seq::new(entries.len(), |i: int| entries[i].0)
}

/// The entries after `value` has been put under `key`: in the place of the
/// entry with that key where there is one, else at the end.
pub open spec fn put(entries: Entries, key: Seq<char>, value: ScalarView) -> Entries {
    let at = first_index(keys(entries), key);
    if at < entries.len() {
        entries.update(at, (key, value))
    } else {
        entries.push((key, value))
    }
}

/// Putting a value under a key keeps the keys apart and is an insertion
/// into the mapping.
pub proof fn lemma_put(entries: Entries, key: Seq<char>, value: ScalarView)
    requires
        distinct_keys(entries),
    ensures
        distinct_keys(put(entries, key, value)),
        map_of(put(entries, key, value)) == map_of(entries).insert(key, value),
{
    let at = first_index(keys(entries), key);
    lemma_first_index_bounds(keys(entries), key);
    if at < entries.len() {
        lemma_map_of_update(entries, at, value);
    } else {
        let after = entries.push((key, value));
        assert(after.drop_last() =~= entries);
        assert forall|i: int, j: int| 0 <= i < j < after.len() implies after[i].0 != after[j].0 by {
            assert(keys(entries)[i] == entries[i].0);
        }
    }
}

/// What stored keys and values stand for.
spec fn held(stored: Seq<(String, ScalarValue)>) -> Entries {
    Seq::new(stored.len(), |i: int| (stored[i].0@, stored[i].1@))
}

/// The parameters of a request. No key stands twice.
#[derive(Debug)]
pub struct RequestParameters {
    entries: Vec<(String, ScalarValue)>,
}

impl RequestParameters {
    /// The entries in the order in which their keys first came.
    pub closed spec fn entries(&self) -> Entries {
        held(self.entries@)
    }

    /// The validity of the value: no key stands twice.
    #[verifier::type_invariant]
    pub open spec fn wf(&self) -> bool {
        distinct_keys(self.entries())
    }

    /// No parameters.
    pub fn new() -> (empty: Self)
        ensures
            empty.wf(),
            empty.entries() == Seq::<(Seq<char>, ScalarView)>::empty(),
            empty@ == Map::<Seq<char>, ScalarView>::empty(),
    {
        let empty = RequestParameters { entries: Vec::new() };
        empty
    }

    /// How many parameters there are.
    pub fn len(&self) -> (n: usize)
        ensures
            n == self.entries().len(),
    {
        self.entries.len()
    }

    /// Whether there is no parameter.
    pub fn is_empty(&self) -> (r: bool)
        ensures
            r == (self.entries().len() == 0),
    {
        self.entries.len() == 0
    }

    /// The key of the entry at `at`.
    pub fn key_at(&self, at: usize) -> (key: &str)
        requires
            at < self.entries().len(),
        ensures
            key@ == self.entries()[at as int].0,
    {
        self.entries[at].0.as_str()
    }

    /// The value of the entry at `at`.
    pub fn value_at(&self, at: usize) -> (value: &ScalarValue)
        requires
            at < self.entries().len(),
        ensures
            value@ == self.entries()[at as int].1,
    {
        &self.entries[at].1
    }

    /// Where the entry with the given key stands, if there is one.
    pub fn position(&self, key: &str) -> (r: Option<usize>)
        ensures
            match r {
                Some(at) => at < self.entries().len() && at == first_index(keys(self.entries()), key@),
                None => first_index(keys(self.entries()), key@) == self.entries().len(),
            },
            r is Some <==> self@.contains_key(key@),
    {
        let mut at: usize = 0;
        while at < self.entries.len()
            invariant
                at <= self.entries().len(),
                self.entries().len() == self.entries@.len(),
                forall|i: int| 0 <= i < at ==> self.entries()[i].0 != key@,
            decreases self.entries@.len() - at,
        {
            if same_text(self.entries[at].0.as_str(), key) {
                proof {
                    lemma_map_of_keys(self.entries(), key@);
                    assert(self.entries()[at as int].0 == key@);
                    lemma_first_index(keys(self.entries()), key@, at as int);
                }
                return Some(at);
            }
            at += 1;
        }
        proof {
            lemma_map_of_keys(self.entries(), key@);
            lemma_first_index(keys(self.entries()), key@, at as int);
        }
        None
    }

    /// The value under the given key, if there is one.
    pub fn get(&self, key: &str) -> (r: Option<&ScalarValue>)
        ensures
            match r {
                Some(value) => self@.contains_key(key@) && self@[key@] == value@,
                None => !self@.contains_key(key@),
            },
    {
        match self.position(key) {
            Some(at) => {
                proof {
                    use_type_invariant(self);
                    lemma_first_index_bounds(keys(self.entries()), key@);
                    lemma_map_of_value(self.entries(), at as int);
                }
                Some(&self.entries[at].1)
            },
            None => None,
        }
    }

    /// Puts `value` under `key`, in place of the value that was there if there
    /// was one.
    pub fn insert(&mut self, key: String, value: ScalarValue)
        ensures
            final(self).wf(),
            final(self).entries() == put(old(self).entries(), key@, value@),
            final(self)@ == old(self)@.insert(key@, value@),
    {
        let ghost before = self.entries();
        proof {
            use_type_invariant(&*self);
            lemma_put(before, key@, value@);
        }
        let found = self.position(key.as_str());
        let mut entries: Vec<(String, ScalarValue)> = Vec::new();
        core::mem::swap(&mut self.entries, &mut entries);
        match found {
            Some(at) => {
                entries.set(at, (key, value));
                assert(held(entries@) =~= before.update(at as int, (key@, value@)));
            },
            None => {
                entries.push((key, value));
                assert(held(entries@) =~= before.push((key@, value@)));
            },
        }
        self.entries = entries;
    }
}

impl View for RequestParameters {
    type V = Map<Seq<char>, ScalarView>;

    /// The mapping from keys to values.
    open spec fn view(&self) -> Map<Seq<char>, ScalarView> {
        map_of(self.entries())
    }
}

} // verus!
