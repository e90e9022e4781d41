//! Wildcard patterns.
//!
//! A pattern is matched against a whole text. In it `*` stands for any run
//! of characters (the empty run too), `?` for exactly one character, and
//! every other character for itself. A pattern is turned into an anchored
//! regular expression, which the `regex` crate compiles and runs.

use vstd::prelude::*;

verus! {

/// The error of the `regex` crate, carried through as an opaque value.
#[verifier::external_type_specification]
#[verifier::external_body]
pub struct ExRegexError(regex::Error);

/// The characters that have a meaning of their own in a regular expression.
pub open spec fn is_meta_character(c: char) -> bool {
    c == '\\' || c == '.' || c == '+' || c == '*' || c == '?' || c == '(' || c == ')' || c == '|'
        || c == '[' || c == ']' || c == '{' || c == '}' || c == '^' || c == '$' || c == '#'
        || c == '&' || c == '-' || c == '~'
}

/// A character as a literal of a regular expression: a meta character is
/// preceded by a backslash, any other character stands as it is.
pub open spec fn escaped_char(c: char) -> Seq<char> {
    if is_meta_character(c) {
        seq!['\\', c]
    } else {
        seq![c]
    }
}

/// What one character of a pattern becomes in the regular expression.
pub open spec fn char_expression(c: char) -> Seq<char> {
    if c == '*' {
        seq!['.', '*']
    } else if c == '?' {
        seq!['.']
    } else {
        escaped_char(c)
    }
}

/// What the characters of a pattern become, one after the other.
pub open spec fn body_expression(pattern: Seq<char>) -> Seq<char>
    decreases pattern.len(),
{
    if pattern.len() == 0 {
        Seq::empty()
    } else {
        body_expression(pattern.drop_last()) + char_expression(pattern.last())
    }
}

/// What stands before the body of the expression: the flag that lets `.`
/// match a line feed as well, and the anchor at the start of the text.
pub open spec fn regex_prefix() -> Seq<char> {
    seq!['(', '?', 's', ')', '^']
}

/// The regular expression of a pattern, anchored at both ends.
pub open spec fn wildcard_regex(pattern: Seq<char>) -> Seq<char> {
    regex_prefix() + body_expression(pattern) + seq!['$']
}

/// Whether `regex::Regex::new` accepts the expression `re`: its syntax is
/// valid, and what it compiles to stays within the size limit that the
/// `regex` crate sets by default.
pub uninterp spec fn regex_compiles(re: Seq<char>) -> bool;

/// Whether the expression `re`, once compiled, finds a match in `haystack`
/// (`regex::Regex::is_match`).
pub uninterp spec fn regex_is_match(re: Seq<char>, haystack: Seq<char>) -> bool;

/// Whether a text matches a pattern: the pattern's regular expression
/// compiles and finds a match in the text. An expression that does not
/// compile matches nothing.
pub open spec fn pattern_matches(pattern: Seq<char>, text: Seq<char>) -> bool {
    regex_compiles(wildcard_regex(pattern)) && regex_is_match(wildcard_regex(pattern), text)
}

/// The verdict of a search that may have failed to compile.
pub open spec fn verdict_of(found: Result<bool, regex::Error>) -> bool {
    found matches Ok(hit) && hit
}

/// `regex::escape` on the text made of the one character `c`.
///
/// Trusted: the result is `c`, with a backslash before it exactly when `c`
/// is one of the meta characters of the `regex` crate.
#[verifier::external_body]
fn escape_char(c: char) -> (literal: String)
    ensures
        literal@ == escaped_char(c),
{
    regex::escape(&c.to_string())
}

/// `regex::Regex::new` on `re`, then `regex::Regex::is_match` of the
/// compiled expression on `haystack`.
///
/// Trusted: whether the expression compiles depends on `re` alone, and
/// what the search finds on `re` and `haystack` alone. Nothing is claimed
/// about which expressions compile or what they match.
#[verifier::external_body]
fn compile_and_search(re: &str, haystack: &str) -> (found: Result<bool, regex::Error>)
    ensures
        (found is Ok) == regex_compiles(re@),
        found matches Ok(hit) ==> hit == regex_is_match(re@, haystack@),
{
    match regex::Regex::new(re) {
        Ok(compiled) => Ok(compiled.is_match(haystack)),
        Err(error) => Err(error),
    }
}

/// Turns a wildcard pattern into an anchored regular expression.
pub fn wildcard_to_regex(pattern: &str) -> (re: String)
    ensures
        re@ == wildcard_regex(pattern@),
{
    let mut re = String::new();
    proof {
        reveal_strlit("(?s)^");
        reveal_strlit(".*");
        reveal_strlit(".");
        reveal_strlit("$");
    }
    re.append("(?s)^");
    let chars = pattern.chars();
    for ch in it: chars
        invariant
            it.seq() == pattern@,
            re@ == regex_prefix() + body_expression(pattern@.take(it.index())),
            ".*"@ == seq!['.', '*'],
            "."@ == seq!['.'],
    {
        assert(pattern@.take(it.index() + 1).drop_last() == pattern@.take(it.index()));
        if ch == '*' {
            re.append(".*");
        } else if ch == '?' {
            re.append(".");
        } else {
            let literal = escape_char(ch);
            re.append(literal.as_str());
        }
    }
    assert(pattern@.take(pattern@.len() as int) == pattern@);
    re.append("$");
    re
}

/// Settles a search: a hit counts, and so does nothing else. An expression
/// that did not compile is a miss, not an error.
pub fn match_verdict(found: Result<bool, regex::Error>) -> (matched: bool)
    ensures
        matched == verdict_of(found),
{
    match found {
        Ok(hit) => hit,
        Err(_) => false,
    }
}

/// Whether the whole of `text` matches the wildcard pattern `pattern`.
pub fn wildcard_matches(pattern: &str, text: &str) -> (matched: bool)
    ensures
        matched == pattern_matches(pattern@, text@),
{
    let re = wildcard_to_regex(pattern);
    match_verdict(compile_and_search(re.as_str(), text))
}

} // verus!
