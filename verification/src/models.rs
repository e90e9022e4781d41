//! The record ("human") and its named metrics, with their mathematical
//! views, and the textual form `name:value` of a metric.

use std::str::FromStr;
use vstd::prelude::*;

verus! {

/// A named measurement attached to a record. In a query the value is a
/// minimum threshold rather than an exact target.
#[derive(Debug, Default, Clone)]
pub struct Metric {
    pub name: String,
    pub value: u8,
}

/// What a [`Metric`] is, mathematically: a name and a value.
pub struct MetricView {
    pub name: Seq<char>,
    pub value: u8,
}

impl View for Metric {
    type V = MetricView;

    open spec fn view(&self) -> MetricView {
        MetricView { name: self.name@, value: self.value }
    }
}

/// A stored record. Read as a query, every field is a filter criterion and
/// an absent or empty field filters nothing.
#[derive(Debug, Default)]
pub struct Human {
    /// identification number
    pub id: Option<String>,
    /// name of the human; the key under which the record is stored
    pub name: String,
    /// phone number of the human
    pub phone: Option<String>,
    /// free-form description of the human
    pub description: Option<String>,
    /// labels associated with the human
    pub label: Option<Vec<String>>,
    /// metrics associated with the human
    pub metric: Option<Vec<Metric>>,
}

/// What a [`Human`] is, mathematically.
pub struct HumanView {
    pub id: Option<Seq<char>>,
    pub name: Seq<char>,
    pub phone: Option<Seq<char>>,
    pub description: Option<Seq<char>>,
    pub label: Option<Seq<Seq<char>>>,
    pub metric: Option<Seq<MetricView>>,
}

impl HumanView {
    /// The labels of the record; none where the field is absent.
    pub open spec fn labels(self) -> Seq<Seq<char>> {
        match self.label {
            Some(labels) => labels,
            None => Seq::empty(),
        }
    }

    /// The metrics of the record; none where the field is absent.
    pub open spec fn metrics(self) -> Seq<MetricView> {
        match self.metric {
            Some(metrics) => metrics,
            None => Seq::empty(),
        }
    }
}

/// The texts of a sequence of strings, in order.
pub open spec fn text_views(texts: Seq<String>) -> Seq<Seq<char>> {
    texts.map_values(|text: String| text@)
}

/// The views of a sequence of metrics, in order.
pub open spec fn metric_views(metrics: Seq<Metric>) -> Seq<MetricView> {
    metrics.map_values(|metric: Metric| metric@)
}

/// The text of an optional string.
pub open spec fn optional_text(text: Option<String>) -> Option<Seq<char>> {
    match text {
        Some(text) => Some(text@),
        None => None,
    }
}

impl View for Human {
    type V = HumanView;

    open spec fn view(&self) -> HumanView {
        HumanView {
            id: optional_text(self.id),
            name: self.name@,
            phone: optional_text(self.phone),
            description: optional_text(self.description),
            label: match self.label {
                Some(labels) => Some(text_views(labels@)),
                None => None,
            },
            metric: match self.metric {
                Some(metrics) => Some(metric_views(metrics@)),
                None => None,
            },
        }
    }
}

/// Whether `c` is one of the ten decimal digits.
pub open spec fn is_digit(c: char) -> bool {
    '0' <= c && c <= '9'
}

/// Whether every character of `text` is a decimal digit.
pub open spec fn all_digits(text: Seq<char>) -> bool {
    forall|i: int| 0 <= i < text.len() ==> is_digit(#[trigger] text[i])
}

/// The number that a run of decimal digits writes.
pub open spec fn digits_value(digits: Seq<char>) -> nat
    decreases digits.len(),
{
    if digits.len() == 0 {
        0
    } else {
        digits_value(digits.drop_last()) * 10 + (digits.last() as nat - '0' as nat) as nat
    }
}

/// The digits of a number text: the text without a plus sign at its start.
pub open spec fn unsigned_part(text: Seq<char>) -> Seq<char> {
    if text.len() > 0 && text[0] == '+' {
        text.skip(1)
    } else {
        text
    }
}

/// The value that a number text writes: an optional plus sign, then at
/// least one decimal digit and nothing else, the number being 255 at most.
pub open spec fn decimal_u8(text: Seq<char>) -> Option<u8> {
    let digits = unsigned_part(text);
    if digits.len() > 0 && all_digits(digits) && digits_value(digits) <= 255 {
        Some(digits_value(digits) as u8)
    } else {
        None
    }
}

/// Whether the one colon of `text` stands at index `i`.
pub open spec fn splits_at(text: Seq<char>, i: int) -> bool {
    &&& 0 <= i < text.len()
    &&& text[i] == ':'
    &&& forall|j: int| 0 <= j < text.len() && j != i ==> text[j] != ':'
}

/// Whether `text` holds exactly one colon.
pub open spec fn has_one_colon(text: Seq<char>) -> bool {
    exists|i: int| splits_at(text, i)
}

/// What is reported of a text that is not a name, a colon and a value.
pub open spec fn invalid_format() -> Seq<char> {
    "Invalid format. Expected 'name:value'."@
}

/// What is reported of a value that is no number from 0 to 255.
pub open spec fn invalid_value() -> Seq<char> {
    "Value must be a valid number."@
}

/// The metric that a text `name:value` writes, or what is reported of it.
/// The name is what stands before the one colon and may be empty.
pub open spec fn parsed_metric(text: Seq<char>) -> Result<MetricView, Seq<char>> {
    if has_one_colon(text) {
        let i = choose|i: int| splits_at(text, i);
        match decimal_u8(text.skip(i + 1)) {
            Some(value) => Ok(MetricView { name: text.take(i), value }),
            None => Err(invalid_value()),
        }
    } else {
        Err(invalid_format())
    }
}

/// A run of digits that is extended by one digit writes no smaller number.
proof fn lemma_digits_value_push(digits: Seq<char>, c: char)
    requires
        is_digit(c),
    ensures
        digits_value(digits.push(c)) == digits_value(digits) * 10 + (c as nat - '0' as nat),
        digits_value(digits.push(c)) >= digits_value(digits),
{
    assert(digits.push(c).drop_last() == digits);
}

/// Reads a number from 0 to 255 in decimal notation.
pub fn parse_decimal_u8(text: &str) -> (value: Option<u8>)
    ensures
        value == decimal_u8(text@),
{
    let mut total: u32 = 0;
    let mut digits_seen: bool = false;
    let mut at_start: bool = true;
    let mut signed: bool = false;
    let mut valid: bool = true;
    let chars = text.chars();
    for ch in it: chars
        invariant
            it.seq() == text@,
            at_start == (it.index() == 0),
            signed == (it.index() > 0 && text@[0] == '+'),
            ({
                let seen = unsigned_part(text@.take(it.index()));
                &&& digits_seen == (seen.len() > 0)
                &&& valid == (all_digits(seen) && digits_value(seen) <= 255)
                &&& valid ==> total == digits_value(seen)
                &&& seen == if signed { text@.subrange(1, it.index()) } else { text@.take(it.index()) }
            }),
    {
        let ghost n = it.index();
        let ghost seen = unsigned_part(text@.take(n));
        let ghost next = unsigned_part(text@.take(n + 1));
        if at_start && ch == '+' {
            signed = true;
        } else {
            proof {
                assert(next == seen.push(ch));
                assert(all_digits(next) == (all_digits(seen) && is_digit(ch))) by {
                    if all_digits(next) {
                        assert(is_digit(next[next.len() - 1]));
                        assert forall|i: int| 0 <= i < seen.len() implies is_digit(
                            #[trigger] seen[i],
                        ) by {
                            assert(seen[i] == next[i]);
                        }
                    }
                }
                if is_digit(ch) {
                    lemma_digits_value_push(seen, ch);
                }
            }
            digits_seen = true;
            if valid && '0' <= ch && ch <= '9' {
                let digit: u32 = (ch as u32) - ('0' as u32);
                total = total * 10 + digit;
                if total > 255 {
                    valid = false;
                }
            } else {
                valid = false;
            }
        }
        at_start = false;
    }
    assert(text@.take(text@.len() as int) == text@);
    if digits_seen && valid {
        Some(total as u8)
    } else {
        None
    }
}

impl FromStr for Metric {
    type Err = String;

    /// Reads a metric from its textual form `name:value`.
    fn from_str(s: &str) -> (parsed: Result<Metric, String>)
        ensures
            match parsed {
                Ok(metric) => parsed_metric(s@) == Ok::<MetricView, Seq<char>>(metric@),
                Err(message) => parsed_metric(s@) == Err::<MetricView, Seq<char>>(message@),
            },
    {
        let length = s.unicode_len();
        let mut colons: u8 = 0;
        let mut first: usize = 0;
        let mut index: usize = 0;
        let ghost mut second: int = 0;
        let chars = s.chars();
        for ch in it: chars
            invariant
                it.seq() == s@,
                length == s@.len(),
                index == it.index(),
                colons <= 2,
                colons == 0 ==> forall|j: int| 0 <= j < index ==> s@[j] != ':',
                colons >= 1 ==> 0 <= first < index && s@[first as int] == ':' && forall|j: int|
                    0 <= j < first ==> s@[j] != ':',
                colons == 1 ==> forall|j: int| first < j < index ==> s@[j] != ':',
                colons == 2 ==> first < second < index && s@[second] == ':',
        {
            if ch == ':' {
                if colons == 0 {
                    first = index;
                    colons = 1;
                } else {
                    proof {
                        if colons == 1 {
                            second = index as int;
                        }
                    }
                    colons = 2;
                }
            }
            index = index + 1;
        }
        if colons != 1 {
            assert(!has_one_colon(s@));
            return Err("Invalid format. Expected 'name:value'.".to_owned());
        }
        assert(splits_at(s@, first as int));
        let name = s.substring_char(0, first).to_owned();
        match parse_decimal_u8(s.substring_char(first + 1, length)) {
            Some(value) => Ok(Metric { name, value }),
            None => Err("Value must be a valid number.".to_owned()),
        }
    }
}

} // verus!
