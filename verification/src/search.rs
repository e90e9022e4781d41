//! The search engine: which stored records a query selects.
//!
//! A query is shaped like a record. Its name and its description are
//! wildcard patterns, its labels are required of a record, and the values
//! of its metrics are minimums. A field that is absent or empty filters
//! nothing. A search keeps the records that meet every criterion, in the
//! order in which it was given them.

use crate::metric_table::{
    lemma_metric_map_entry, lemma_metric_map_names, metric_map, names_distinct, MetricTable,
};
use crate::models::{metric_views, optional_text, text_views, Human, HumanView};
use crate::wildcard::{pattern_matches, wildcard_matches};
use vstd::prelude::*;

verus! {

/// An optional pattern as a criterion: an empty pattern is none.
pub open spec fn normalized(pattern: Option<Seq<char>>) -> Option<Seq<char>> {
    match pattern {
        Some(text) => if text.len() == 0 {
            None
        } else {
            Some(text)
        },
        None => None,
    }
}

/// Whether every required label is among the labels that a record has.
/// Order and repetition count for nothing.
pub open spec fn labels_satisfy(have: Seq<Seq<char>>, required: Seq<Seq<char>>) -> bool {
    forall|i: int| 0 <= i < required.len() ==> have.contains(#[trigger] required[i])
}

/// Whether a record's metrics reach every minimum: each name that has a
/// minimum is a metric of the record, with a value that is no smaller.
pub open spec fn metrics_satisfy(have: Map<Seq<char>, u8>, minimums: Map<Seq<char>, u8>) -> bool {
    forall|name: Seq<char>| #[trigger]
        minimums.contains_key(name) ==> have.contains_key(name) && have[name] >= minimums[name]
}

/// Whether a record meets a name pattern, required labels and minimums.
pub open spec fn meets(
    record: HumanView,
    name_pattern: Option<Seq<char>>,
    required: Seq<Seq<char>>,
    minimums: Map<Seq<char>, u8>,
) -> bool {
    &&& name_pattern matches Some(pattern) ==> pattern_matches(pattern, record.name)
    &&& labels_satisfy(record.labels(), required)
    &&& metrics_satisfy(metric_map(record.metrics()), minimums)
}

/// Whether a record's description meets a description pattern. Where a
/// pattern is given, a record without description does not meet it.
pub open spec fn description_meets(record: HumanView, pattern: Option<Seq<char>>) -> bool {
    match pattern {
        Some(pattern) => match record.description {
            Some(description) => pattern_matches(pattern, description),
            None => false,
        },
        None => true,
    }
}

/// The name pattern of a query: none where the query's name is empty.
pub open spec fn name_pattern(query: HumanView) -> Option<Seq<char>> {
    normalized(Some(query.name))
}

/// The description pattern of a query: none where the query's description
/// is absent or empty.
pub open spec fn description_pattern(query: HumanView) -> Option<Seq<char>> {
    normalized(query.description)
}

/// Whether a query selects a record: the record meets each of the four
/// criteria that the query holds.
pub open spec fn selects(query: HumanView, record: HumanView) -> bool {
    &&& meets(record, name_pattern(query), query.labels(), metric_map(query.metrics()))
    &&& description_meets(record, description_pattern(query))
}

/// The test that a search with `query` puts each record to.
pub open spec fn selector(query: HumanView) -> spec_fn(Human) -> bool {
    |record: Human| selects(query, record@)
}

/// What a search returns: the records that the query selects, in the
/// order of `all`.
pub open spec fn search_results(all: Seq<Human>, query: HumanView) -> Seq<Human> {
    all.filter(selector(query))
}

/// Normalizes an optional pattern: an absent or empty pattern is none,
/// any other pattern is kept.
pub fn normalize_pattern(pat: &Option<String>) -> (pattern: Option<String>)
    ensures
        optional_text(pattern) == normalized(optional_text(*pat)),
{
    match pat {
        Some(text) => {
            if text.as_str().is_empty() {
                None
            } else {
                Some(text.clone())
            }
        },
        None => None,
    }
}

/// Whether `wanted` is one of the labels `have`.
fn has_label(have: &Vec<String>, wanted: &String) -> (found: bool)
    ensures
        found == text_views(have@).contains(wanted@),
{
    let mut i: usize = 0;
    while i < have.len()
        invariant
            i <= have.len(),
            forall|j: int| 0 <= j < i ==> have[j]@ != wanted@,
        decreases have.len() - i,
    {
        if have[i] == *wanted {
            assert(text_views(have@)[i as int] == wanted@);
            return true;
        }
        i += 1;
    }
    false
}

/// Returns true if the candidate has all required labels.
pub fn labels_match(candidate: &Human, required: &[String]) -> (satisfied: bool)
    ensures
        satisfied == labels_satisfy(candidate@.labels(), text_views(required@)),
{
    let mut i: usize = 0;
    while i < required.len()
        invariant
            i <= required.len(),
            forall|j: int|
                0 <= j < i ==> candidate@.labels().contains(#[trigger] text_views(required@)[j]),
        decreases required.len() - i,
    {
        let found = match &candidate.label {
            Some(have) => has_label(have, &required[i]),
            None => false,
        };
        if !found {
            assert(!candidate@.labels().contains(text_views(required@)[i as int]));
            return false;
        }
        i += 1;
    }
    true
}

/// Returns true if the candidate's metrics meet or exceed each minimum.
pub fn metrics_meet(candidate: &Human, minimums: &MetricTable) -> (satisfied: bool)
    ensures
        satisfied == metrics_satisfy(metric_map(candidate@.metrics()), minimums@),
{
    if minimums.is_empty() {
        return true;
    }
    let have = match &candidate.metric {
        Some(metrics) => MetricTable::from_metrics(metrics),
        None => MetricTable::new(),
    };
    let wanted = minimums.entries();
    let ghost thresholds = metric_views(wanted@);
    let mut i: usize = 0;
    while i < wanted.len()
        invariant
            i <= wanted.len(),
            thresholds == metric_views(wanted@),
            names_distinct(thresholds),
            metric_map(thresholds) == minimums@,
            have@ == metric_map(candidate@.metrics()),
            forall|j: int|
                0 <= j < i ==> have@.contains_key((#[trigger] thresholds[j]).name)
                    && have@[thresholds[j].name] >= thresholds[j].value,
        decreases wanted.len() - i,
    {
        let reached = match have.get(&wanted[i].name) {
            Some(value) => value >= wanted[i].value,
            None => false,
        };
        proof {
            lemma_metric_map_entry(thresholds, i as int);
        }
        if !reached {
            return false;
        }
        i += 1;
    }
    proof {
        assert forall|name: Seq<char>| #[trigger] minimums@.contains_key(name) implies have@.contains_key(
            name,
        ) && have@[name] >= minimums@[name] by {
            lemma_metric_map_names(thresholds, name);
            let j = choose|j: int| 0 <= j < thresholds.len() && (#[trigger] thresholds[j]).name == name;
            lemma_metric_map_entry(thresholds, j);
        }
    }
    true
}

/// Checks a record against the criteria taken from a query: the name
/// pattern, the required labels and the minimums of the metrics.
pub fn human_matches(
    h: &Human,
    name_pat: &Option<String>,
    required_labels: &[String],
    min_metrics: &MetricTable,
) -> (matched: bool)
    ensures
        matched == meets(h@, optional_text(*name_pat), text_views(required_labels@), min_metrics@),
{
    if let Some(pat) = name_pat {
        if !wildcard_matches(pat.as_str(), h.name.as_str()) {
            return false;
        }
    }
    if !labels_match(h, required_labels) {
        return false;
    }
    if !metrics_meet(h, min_metrics) {
        return false;
    }
    true
}

/// Returns true if the record's description matches the pattern, or if
/// there is no pattern.
pub fn description_matches(h: &Human, desc_pat: &Option<String>) -> (matched: bool)
    ensures
        matched == description_meets(h@, optional_text(*desc_pat)),
{
    match desc_pat {
        None => true,
        Some(pat) => match &h.description {
            Some(description) => wildcard_matches(pat.as_str(), description.as_str()),
            None => false,
        },
    }
}

/// The minimums of a query: the mapping that its metrics stand for.
pub fn extract_min_metrics(query: &Human) -> (minimums: MetricTable)
    ensures
        minimums@ == metric_map(query@.metrics()),
{
    match &query.metric {
        Some(metrics) => MetricTable::from_metrics(metrics),
        None => MetricTable::new(),
    }
}

/// Search: of the records `all`, those that the query selects, in the
/// order of `all`.
pub fn run(all: Vec<Human>, query: &Human) -> (results: Vec<Human>)
    ensures
        results@ == search_results(all@, query@),
{
    let name_pat = if query.name.as_str().is_empty() {
        None
    } else {
        Some(query.name.clone())
    };
    let desc_pat = normalize_pattern(&query.description);
    let no_labels: Vec<String> = Vec::new();
    let required_labels: &Vec<String> = match &query.label {
        Some(labels) => labels,
        None => &no_labels,
    };
    let min_metrics = extract_min_metrics(query);
    let ghost records = all@;
    let mut results: Vec<Human> = Vec::new();
    for h in it: all
        invariant
            it.seq() == records,
            optional_text(name_pat) == name_pattern(query@),
            optional_text(desc_pat) == description_pattern(query@),
            text_views(required_labels@) == query@.labels(),
            min_metrics@ == metric_map(query@.metrics()),
            results@ == records.take(it.index()).filter(selector(query@)),
    {
        proof {
            reveal(Seq::filter);
            assert(records.take(it.index() + 1).drop_last() == records.take(it.index()));
        }
        if human_matches(&h, &name_pat, required_labels.as_slice(), &min_metrics)
            && description_matches(&h, &desc_pat) {
            results.push(h);
        }
    }
    assert(records.take(records.len() as int) == records);
    results
}

/// A record without labels has the required labels exactly when none is
/// required.
pub proof fn law_no_labels(required: Seq<Seq<char>>)
    ensures
        labels_satisfy(Seq::empty(), required) <==> required.len() == 0,
{
    if required.len() > 0 {
        assert(!Seq::<Seq<char>>::empty().contains(required[0]));
    }
}

/// A record that lacks a metric for which there is a minimum does not
/// reach the minimums, whatever its other metrics are.
pub proof fn law_missing_metric(
    have: Map<Seq<char>, u8>,
    minimums: Map<Seq<char>, u8>,
    name: Seq<char>,
)
    requires
        minimums.contains_key(name),
        !have.contains_key(name),
    ensures
        !metrics_satisfy(have, minimums),
{
}

/// A query with a description pattern selects no record that has no
/// description.
pub proof fn law_absent_description(query: HumanView, record: HumanView)
    requires
        description_pattern(query) is Some,
        record.description is None,
    ensures
        !selects(query, record),
{
}

/// Whether every field of a query is absent or empty.
pub open spec fn is_empty_query(query: HumanView) -> bool {
    &&& query.name.len() == 0
    &&& query.description matches Some(description) ==> description.len() == 0
    &&& query.labels().len() == 0
    &&& query.metrics().len() == 0
}

/// A query whose fields are all absent or empty returns every record, in
/// the order in which the records were given.
pub proof fn law_empty_query(all: Seq<Human>, query: HumanView)
    requires
        is_empty_query(query),
    ensures
        search_results(all, query) == all,
    decreases all.len(),
{
    reveal(Seq::filter);
    if all.len() > 0 {
        law_empty_query(all.drop_last(), query);
    }
}

/// Two searches with the same query over the same records return the
/// same records in the same order.
pub proof fn law_search_repeatable(all: Vec<Human>, query: Human, first: Vec<Human>, second: Vec<Human>)
    requires
        call_ensures(run, (all, &query), first),
        call_ensures(run, (all, &query), second),
    ensures
        first@ == second@,
{
}

} // verus!
