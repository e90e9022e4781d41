//! Record keeping for a small team: the record model and the search engine
//! that filters stored records against a multi-criteria query.
//!
//! - [`models`]: the record and its metrics, and the textual form of a metric.
//! - [`wildcard`]: wildcard patterns, matched through the `regex` crate.
//! - [`pattern_meaning`]: what a wildcard pattern means.
//! - [`metric_table`]: the mapping from metric names to values.
//! - [`search`]: the criteria of a query and the search itself.
//! - [`report`]: the lines that report found records.

pub mod metric_table;
pub mod models;
pub mod pattern_meaning;
pub mod report;
pub mod search;
pub mod wildcard;
