//! Normalization: a template's parameters and the overrides given with a
//! request become one set of request parameters.

use crate::error::SignError;
use crate::overrides::{override_split, parse_override};
use crate::parameters::{distinct_keys, lemma_put, map_of, put, Entries, RequestParameters};
use crate::text::texts;
use crate::value::{ScalarValue, ScalarView, TemplateValue};
use vstd::prelude::*;

verus! {

/// What normalization gives: the parameters of the request, and which of the
/// overrides were left out.
#[derive(Debug)]
pub struct Normalized {
    /// The merged parameters.
    pub parameters: RequestParameters,
    /// The places, in ascending order, of the overrides that had no `=` or an
    /// empty key, and so were skipped.
    pub skipped: Vec<usize>,
}

impl TemplateValue {
    /// The scalar that a supported value holds.
    pub open spec fn scalar(self) -> ScalarView
        recommends
            self is Scalar,
    {
        match self {
            TemplateValue::Scalar(value) => value@,
            _ => arbitrary(),
        }
    }
}

/// Whether every parameter of the template is a text, a number or a boolean.
pub open spec fn all_supported(template: Seq<(String, TemplateValue)>) -> bool {
    forall|i: int| 0 <= i < template.len() ==> (#[trigger] template[i]).1 is Scalar
}

/// The parameters of a template as entries.
pub open spec fn template_entries(template: Seq<(String, TemplateValue)>) -> Entries
    recommends
        all_supported(template),
{
    Seq::new(template.len(), |i: int| (template[i].0@, template[i].1.scalar()))
}

/// The entries put one after the other into an empty set of parameters.
pub open spec fn collected(given: Entries) -> Entries
    decreases given.len(),
{
    if given.len() == 0 {
        Seq::empty()
    } else {
        put(collected(given.drop_last()), given.last().0, given.last().1)
    }
}

/// The entries after the overrides have been applied in turn: one that splits
/// into key and value puts the value, as a text, under the key; any other
/// changes nothing.
pub open spec fn overridden(base: Entries, overrides: Seq<Seq<char>>) -> Entries
    decreases overrides.len(),
{
    if overrides.len() == 0 {
        base
    } else {
        let before = overridden(base, overrides.drop_last());
        match override_split(overrides.last()) {
            Some((key, value)) => put(before, key, ScalarView::Text(value)),
            None => before,
        }
    }
}

/// The entries of a request: the template's parameters, then the overrides.
pub open spec fn request_entries(
    template: Seq<(String, TemplateValue)>,
    overrides: Seq<Seq<char>>,
) -> Entries
    recommends
        all_supported(template),
{
    overridden(collected(template_entries(template)), overrides)
}

/// The mapping after the overrides have been applied in turn: one that splits
/// into key and value puts the value, as a text, under the key; any other
/// changes nothing.
pub open spec fn with_overrides(
    base: Map<Seq<char>, ScalarView>,
    overrides: Seq<Seq<char>>,
) -> Map<Seq<char>, ScalarView>
    decreases overrides.len(),
{
    if overrides.len() == 0 {
        base
    } else {
        let before = with_overrides(base, overrides.drop_last());
        match override_split(overrides.last()) {
            Some((key, value)) => before.insert(key, ScalarView::Text(value)),
            None => before,
        }
    }
}

/// The places of the overrides that do not split into key and value, in
/// ascending order.
pub open spec fn rejected(overrides: Seq<Seq<char>>) -> Seq<usize>
    decreases overrides.len(),
{
    if overrides.len() == 0 {
        Seq::empty()
    } else if override_split(overrides.last()) is None {
        rejected(overrides.drop_last()).push((overrides.len() - 1) as usize)
    } else {
        rejected(overrides.drop_last())
    }
}

/// The entries of a request hold no key twice, and spell out the mapping of
/// the template's parameters with the overrides applied.
pub proof fn lemma_request_entries(template: Seq<(String, TemplateValue)>, overrides: Seq<Seq<char>>)
    ensures
        distinct_keys(request_entries(template, overrides)),
        map_of(request_entries(template, overrides)) == with_overrides(
            map_of(template_entries(template)),
            overrides,
        ),
{
    lemma_collected(template_entries(template));
    lemma_overridden(collected(template_entries(template)), overrides);
}

proof fn lemma_collected(given: Entries)
    ensures
        distinct_keys(collected(given)),
        map_of(collected(given)) == map_of(given),
    decreases given.len(),
{
    if given.len() > 0 {
        lemma_collected(given.drop_last());
        lemma_put(collected(given.drop_last()), given.last().0, given.last().1);
    }
}

proof fn lemma_overridden(base: Entries, overrides: Seq<Seq<char>>)
    requires
        distinct_keys(base),
    ensures
        distinct_keys(overridden(base, overrides)),
        map_of(overridden(base, overrides)) == with_overrides(map_of(base), overrides),
    decreases overrides.len(),
{
    if overrides.len() > 0 {
        lemma_overridden(base, overrides.drop_last());
        match override_split(overrides.last()) {
            Some((key, value)) => {
                lemma_put(overridden(base, overrides.drop_last()), key, ScalarView::Text(value));
            },
            None => {},
        }
    }
}

/// An override that does not split into key and value changes nothing:
/// the outcome is that of the other overrides alone.
pub proof fn lemma_malformed_override_is_dropped(
    base: Map<Seq<char>, ScalarView>,
    overrides: Seq<Seq<char>>,
    at: int,
)
    requires
        0 <= at < overrides.len(),
        override_split(overrides[at]) is None,
    ensures
        with_overrides(base, overrides) == with_overrides(base, overrides.remove(at)),
    decreases overrides.len(),
{
    if at == overrides.len() - 1 {
        assert(overrides.remove(at) =~= overrides.drop_last());
    } else {
        lemma_malformed_override_is_dropped(base, overrides.drop_last(), at);
        assert(overrides.remove(at).drop_last() =~= overrides.drop_last().remove(at));
    }
}

/// An override wins over the template and over every earlier override: the
/// value of the last override with a given key is the value under that key.
pub proof fn lemma_last_override_wins(
    base: Map<Seq<char>, ScalarView>,
    overrides: Seq<Seq<char>>,
    at: int,
    key: Seq<char>,
    value: Seq<char>,
)
    requires
        0 <= at < overrides.len(),
        override_split(overrides[at]) == Some((key, value)),
        forall|j: int|
            at < j < overrides.len() ==> !(override_split(#[trigger] overrides[j]) matches Some(
                later,
            ) && later.0 == key),
    ensures
        with_overrides(base, overrides).contains_key(key),
        with_overrides(base, overrides)[key] == ScalarView::Text(value),
    decreases overrides.len(),
{
    if at < overrides.len() - 1 {
        let front = overrides.drop_last();
        assert forall|j: int| at < j < front.len() implies !(override_split(
            #[trigger] front[j],
        ) matches Some(later) && later.0 == key) by {
            assert(front[j] == overrides[j]);
        }
        lemma_last_override_wins(base, front, at, key, value);
    }
}

/// A key that no override names keeps what the template gave it.
pub proof fn lemma_untouched_key_keeps_template_value(
    base: Map<Seq<char>, ScalarView>,
    overrides: Seq<Seq<char>>,
    key: Seq<char>,
)
    requires
        forall|j: int|
            0 <= j < overrides.len() ==> !(override_split(#[trigger] overrides[j]) matches Some(
                named,
            ) && named.0 == key),
    ensures
        with_overrides(base, overrides).contains_key(key) == base.contains_key(key),
        base.contains_key(key) ==> with_overrides(base, overrides)[key] == base[key],
    decreases overrides.len(),
{
    if overrides.len() > 0 {
        let front = overrides.drop_last();
        assert forall|j: int| 0 <= j < front.len() implies !(override_split(
            #[trigger] front[j],
        ) matches Some(named) && named.0 == key) by {
            assert(front[j] == overrides[j]);
        }
        lemma_untouched_key_keeps_template_value(base, front, key);
    }
}

/// Merges the parameters of a template with overrides of the form
/// `key=value`. Fails where a template parameter is neither a text, a number
/// nor a boolean.
pub fn normalize(template: &[(String, TemplateValue)], overrides: &[String]) -> (r: Result<
    Normalized,
    SignError,
>)
    ensures
        match r {
            Ok(merged) => {
                &&& all_supported(template@)
                &&& merged.parameters.wf()
                &&& merged.parameters.entries() == request_entries(template@, texts(overrides@))
                &&& merged.parameters@ == with_overrides(
                    map_of(template_entries(template@)),
                    texts(overrides@),
                )
                &&& merged.skipped@ == rejected(texts(overrides@))
            },
            Err(e) => e == SignError::UnsupportedValueType && !all_supported(template@),
        },
{
    let ghost given = template_entries(template@);
    let ghost asked = texts(overrides@);
    let mut parameters = RequestParameters::new();
    let mut i: usize = 0;
    while i < template.len()
        invariant
            i <= template@.len(),
            given == template_entries(template@),
            parameters.wf(),
            parameters.entries() == collected(given.take(i as int)),
            forall|k: int| 0 <= k < i ==> (#[trigger] template@[k]).1 is Scalar,
        decreases template@.len() - i,
    {
        match &template[i].1 {
            TemplateValue::Scalar(value) => {
                parameters.insert(template[i].0.clone(), value.clone());
            },
            _ => {
                return Err(SignError::UnsupportedValueType);
            },
        }
        proof {
            assert(given.take(i + 1).drop_last() =~= given.take(i as int));
        }
        i += 1;
    }
    assert(given.take(i as int) =~= given);
    let mut skipped: Vec<usize> = Vec::new();
    let mut j: usize = 0;
    while j < overrides.len()
        invariant
            j <= overrides@.len(),
            asked == texts(overrides@),
            parameters.wf(),
            parameters.entries() == overridden(collected(given), asked.take(j as int)),
            skipped@ == rejected(asked.take(j as int)),
        decreases overrides@.len() - j,
    {
        proof {
            assert(asked.take(j + 1).drop_last() =~= asked.take(j as int));
        }
        match parse_override(overrides[j].as_str()) {
            Some((key, value)) => {
                parameters.insert(key, ScalarValue::Text(value));
            },
            None => {
                skipped.push(j);
            },
        }
        j += 1;
    }
    proof {
        assert(asked.take(j as int) =~= asked);
        lemma_request_entries(template@, asked);
    }
    Ok(Normalized { parameters, skipped })
}

} // verus!
