//! What is reported of a record that a listing or a search has found.

use crate::models::Human;
use vstd::prelude::*;

verus! {

/// The line that reports a record of the given name.
pub open spec fn found_text(name: Seq<char>) -> Seq<char> {
    "Found human: "@ + name
}

/// The line that reports a found record: a fixed opening, then the
/// record's name.
pub fn found_line(human: &Human) -> (line: String)
    ensures
        line@ == found_text(human@.name),
{
    let mut line = "Found human: ".to_owned();
    line.append(human.name.as_str());
    line
}

/// The lines that report the found records, one for each record, in the
/// order of the records.
pub fn found_lines(humans: &Vec<Human>) -> (lines: Vec<String>)
    ensures
        lines@.len() == humans@.len(),
        forall|i: int| 0 <= i < humans@.len() ==> (#[trigger] lines@[i])@ == found_text(humans@[i]@.name),
{
    let mut lines: Vec<String> = Vec::new();
    let mut i: usize = 0;
    while i < humans.len()
        invariant
            i <= humans.len(),
            lines@.len() == i,
            forall|j: int| 0 <= j < i ==> (#[trigger] lines@[j])@ == found_text(humans@[j]@.name),
        decreases humans.len() - i,
    {
        lines.push(found_line(&humans[i]));
        i += 1;
    }
    lines
}

} // verus!
