//! A mapping from metric names to values.
//!
//! A sequence of metrics stands for the mapping that is built by entering
//! its metrics one after the other, so that of two metrics of one name the
//! later one counts. A [`MetricTable`] holds such a mapping as a list in
//! which no name occurs twice.

use crate::models::{metric_views, Metric, MetricView};
use vstd::prelude::*;

verus! {

/// The mapping that a sequence of metrics stands for: where a name occurs
/// more than once, its last value counts.
pub open spec fn metric_map(metrics: Seq<MetricView>) -> Map<Seq<char>, u8>
    decreases metrics.len(),
{
    if metrics.len() == 0 {
        Map::empty()
    } else {
        metric_map(metrics.drop_last()).insert(metrics.last().name, metrics.last().value)
    }
}

/// Whether no two metrics of the sequence have the same name.
pub open spec fn names_distinct(metrics: Seq<MetricView>) -> bool {
    forall|i: int, j: int|
        0 <= i < j < metrics.len() ==> (#[trigger] metrics[i]).name != (#[trigger] metrics[j]).name
}

/// Whether some metric of the sequence has the name `name`.
pub open spec fn has_name(metrics: Seq<MetricView>, name: Seq<char>) -> bool {
    exists|i: int| 0 <= i < metrics.len() && (#[trigger] metrics[i]).name == name
}

/// The mapping of a sequence of metrics holds exactly the names that occur
/// in the sequence.
pub proof fn lemma_metric_map_names(metrics: Seq<MetricView>, name: Seq<char>)
    ensures
        metric_map(metrics).contains_key(name) <==> has_name(metrics, name),
    decreases metrics.len(),
{
    if metrics.len() > 0 {
        let front = metrics.drop_last();
        lemma_metric_map_names(front, name);
        if has_name(metrics, name) {
            let i = choose|i: int| 0 <= i < metrics.len() && (#[trigger] metrics[i]).name == name;
            if i < front.len() {
                assert(front[i].name == name);
            }
        }
    }
}

/// Where no name occurs twice, the mapping gives each metric of the
/// sequence its own value.
pub proof fn lemma_metric_map_entry(metrics: Seq<MetricView>, i: int)
    requires
        names_distinct(metrics),
        0 <= i < metrics.len(),
    ensures
        metric_map(metrics).contains_key(metrics[i].name),
        metric_map(metrics)[metrics[i].name] == metrics[i].value,
    decreases metrics.len(),
{
    let front = metrics.drop_last();
    if i < front.len() {
        lemma_metric_map_entry(front, i);
    }
}

/// A mapping from metric names to values, held as a list of metrics in
/// which no name occurs twice.
#[derive(Debug)]
pub struct MetricTable {
    entries: Vec<Metric>,
}

impl View for MetricTable {
    type V = Map<Seq<char>, u8>;

    closed spec fn view(&self) -> Map<Seq<char>, u8> {
        metric_map(metric_views(self.entries@))
    }
}

impl MetricTable {
    #[verifier::type_invariant]
    spec fn no_name_twice(self) -> bool {
        names_distinct(metric_views(self.entries@))
    }

    /// The empty mapping.
    pub fn new() -> (table: MetricTable)
        ensures
            table@ == Map::<Seq<char>, u8>::empty(),
    {
        MetricTable { entries: Vec::new() }
    }

    /// Whether the mapping holds no name.
    pub fn is_empty(&self) -> (empty: bool)
        ensures
            empty == self@.is_empty(),
    {
        proof {
            let views = metric_views(self.entries@);
            if views.len() > 0 {
                assert(self@.contains_key(views.last().name));
            }
        }
        self.entries.is_empty()
    }

    /// The mapping as a list of metrics in which each name occurs once.
    pub fn entries(&self) -> (list: &Vec<Metric>)
        ensures
            metric_map(metric_views(list@)) == self@,
            names_distinct(metric_views(list@)),
    {
        proof {
            use_type_invariant(self);
        }
        &self.entries
    }

    /// The value that the mapping gives to `name`, if it holds the name.
    pub fn get(&self, name: &String) -> (value: Option<u8>)
        ensures
            value == if self@.contains_key(name@) {
                Some(self@[name@])
            } else {
                None::<u8>
            },
    {
        proof {
            use_type_invariant(self);
            lemma_metric_map_names(metric_views(self.entries@), name@);
        }
        match position(&self.entries, name) {
            Some(i) => {
                proof {
                    lemma_metric_map_entry(metric_views(self.entries@), i as int);
                }
                Some(self.entries[i].value)
            },
            None => None,
        }
    }

    /// The mapping that a list of metrics stands for.
    pub fn from_metrics(metrics: &Vec<Metric>) -> (table: MetricTable)
        ensures
            table@ == metric_map(metric_views(metrics@)),
    {
        let mut entries: Vec<Metric> = Vec::new();
        let ghost views = metric_views(metrics@);
        let mut i: usize = 0;
        while i < metrics.len()
            invariant
                i <= metrics.len(),
                views == metric_views(metrics@),
                names_distinct(metric_views(entries@)),
                metric_map(metric_views(entries@)) == metric_map(views.take(i as int)),
            decreases metrics.len() - i,
        {
            assert(views.take(i + 1).drop_last() == views.take(i as int));
            enter(&mut entries, metrics[i].name.clone(), metrics[i].value);
            i += 1;
        }
        assert(views.take(metrics.len() as int) == views);
        MetricTable { entries }
    }
}

/// The index of the metric of the given name, if the list holds one.
fn position(entries: &Vec<Metric>, name: &String) -> (found: Option<usize>)
    ensures
        match found {
            Some(i) => i < entries.len() && entries[i as int].name@ == name@,
            None => !has_name(metric_views(entries@), name@),
        },
{
    let mut i: usize = 0;
    while i < entries.len()
        invariant
            i <= entries.len(),
            forall|j: int| 0 <= j < i ==> entries[j].name@ != name@,
        decreases entries.len() - i,
    {
        if entries[i].name == *name {
            return Some(i);
        }
        i += 1;
    }
    None
}

/// Enters `value` under `name` in a list without repeated names: the
/// metric of that name is replaced, or a new one is added at the end.
fn enter(entries: &mut Vec<Metric>, name: String, value: u8)
    requires
        names_distinct(metric_views(old(entries)@)),
    ensures
        names_distinct(metric_views(final(entries)@)),
        metric_map(metric_views(final(entries)@)) == metric_map(
            metric_views(old(entries)@),
        ).insert(name@, value),
{
    let ghost before = metric_views(entries@);
    let ghost entered = MetricView { name: name@, value };
    match position(entries, &name) {
        Some(i) => {
            entries.set(i, Metric { name, value });
            proof {
                let after = metric_views(entries@);
                assert(after == before.update(i as int, entered));
                lemma_update_keeps_names_distinct(before, i as int, entered);
                lemma_metric_map_update(before, i as int, entered);
            }
        },
        None => {
            entries.push(Metric { name, value });
            proof {
                let after = metric_views(entries@);
                assert(after.drop_last() == before);
                assert(names_distinct(after)) by {
                    assert forall|a: int, b: int| 0 <= a < b < after.len() implies (
                    #[trigger] after[a]).name != (#[trigger] after[b]).name by {
                        assert(after[a] == before[a]);
                        if b < before.len() {
                            assert(after[b] == before[b]);
                        }
                    }
                }
            }
        },
    }
}

/// Replacing a metric by one of the same name leaves the names distinct.
proof fn lemma_update_keeps_names_distinct(metrics: Seq<MetricView>, i: int, entered: MetricView)
    requires
        names_distinct(metrics),
        0 <= i < metrics.len(),
        metrics[i].name == entered.name,
    ensures
        names_distinct(metrics.update(i, entered)),
{
}

/// Where no name occurs twice, replacing a metric by one of the same name
/// enters the new value under that name.
proof fn lemma_metric_map_update(metrics: Seq<MetricView>, i: int, entered: MetricView)
    requires
        names_distinct(metrics),
        0 <= i < metrics.len(),
        metrics[i].name == entered.name,
    ensures
        metric_map(metrics.update(i, entered)) == metric_map(metrics).insert(
            entered.name,
            entered.value,
        ),
{
    let after = metrics.update(i, entered);
    let left = metric_map(after);
    let right = metric_map(metrics).insert(entered.name, entered.value);
    lemma_update_keeps_names_distinct(metrics, i, entered);
    assert forall|name: Seq<char>| left.contains_key(name) == right.contains_key(name) by {
        lemma_metric_map_names(after, name);
        lemma_metric_map_names(metrics, name);
        if has_name(metrics, name) {
            let j = choose|j: int| 0 <= j < metrics.len() && (#[trigger] metrics[j]).name == name;
            assert(after[j].name == name);
        }
    }
    assert forall|name: Seq<char>| left.contains_key(name) implies left[name] == right[name] by {
        lemma_metric_map_names(after, name);
        let j = choose|j: int| 0 <= j < after.len() && (#[trigger] after[j]).name == name;
        lemma_metric_map_entry(after, j);
        if j != i {
            lemma_metric_map_entry(metrics, j);
        }
    }
}

} // verus!
