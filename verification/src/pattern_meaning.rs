//! What a wildcard pattern means, and what follows for a matcher that
//! gives each pattern its meaning.
//!
//! The verdict of [`wildcard_matches`](crate::wildcard::wildcard_matches)
//! is the verdict of the `regex` crate on the pattern's regular expression,
//! of which nothing is proved here. This module states the meaning that
//! the expression is meant to have, and proves what holds of every engine
//! that is faithful to it.

use crate::wildcard::{pattern_matches, regex_compiles, regex_is_match, wildcard_regex};
use vstd::prelude::*;

verus! {

/// Whether the whole of `text` is what `pattern` describes: `*` stands for
/// any run of characters, the empty run too, `?` for exactly one
/// character, and every other character for itself.
pub open spec fn describes(pattern: Seq<char>, text: Seq<char>) -> bool
    decreases pattern.len(), text.len(),
{
    if pattern.len() == 0 {
        text.len() == 0
    } else if pattern[0] == '*' {
        describes(pattern.skip(1), text) || (text.len() > 0 && describes(pattern, text.skip(1)))
    } else if pattern[0] == '?' {
        text.len() > 0 && describes(pattern.skip(1), text.skip(1))
    } else {
        text.len() > 0 && text[0] == pattern[0] && describes(pattern.skip(1), text.skip(1))
    }
}

/// Whether the engine is faithful: the regular expression of every
/// pattern, where it compiles, finds a match in exactly the texts that the
/// pattern describes.
pub open spec fn engine_is_faithful() -> bool {
    forall|pattern: Seq<char>, text: Seq<char>|
        regex_compiles(wildcard_regex(pattern)) ==> (#[trigger] regex_is_match(
            wildcard_regex(pattern),
            text,
        ) == describes(pattern, text))
}

/// Whether a pattern holds no wildcard.
pub open spec fn is_literal(pattern: Seq<char>) -> bool {
    forall|i: int| 0 <= i < pattern.len() ==> pattern[i] != '*' && pattern[i] != '?'
}

/// A pattern without wildcards describes itself and no other text.
pub proof fn lemma_literal_describes_itself(pattern: Seq<char>, text: Seq<char>)
    requires
        is_literal(pattern),
    ensures
        describes(pattern, text) <==> pattern == text,
    decreases pattern.len(),
{
    if pattern.len() == 0 {
        assert(text.len() == 0 ==> pattern =~= text);
    } else {
        assert(pattern[0] != '*' && pattern[0] != '?');
        if text.len() > 0 {
            assert(is_literal(pattern.skip(1))) by {
                assert forall|i: int| 0 <= i < pattern.skip(1).len() implies pattern.skip(1)[i]
                    != '*' && pattern.skip(1)[i] != '?' by {
                    assert(pattern.skip(1)[i] == pattern[i + 1]);
                }
            }
            lemma_literal_describes_itself(pattern.skip(1), text.skip(1));
            if text[0] == pattern[0] && pattern.skip(1) == text.skip(1) {
                assert(pattern =~= text) by {
                    assert(pattern.len() == text.len());
                    assert forall|i: int| 0 <= i < pattern.len() implies pattern[i] == text[i] by {
                        if i > 0 {
                            assert(pattern.skip(1)[i - 1] == text.skip(1)[i - 1]);
                        }
                    }
                }
            }
        }
    }
}

/// The pattern `*` describes every text, the empty one too.
pub proof fn lemma_star_describes_all(text: Seq<char>)
    ensures
        describes(seq!['*'], text),
    decreases text.len(),
{
    let star = seq!['*'];
    if text.len() == 0 {
        assert(star.skip(1).len() == 0);
        assert(describes(star.skip(1), text));
    } else {
        lemma_star_describes_all(text.skip(1));
    }
}

/// The pattern `a?c` describes the texts of three characters that start
/// with `a` and end with `c`, and no others.
pub proof fn lemma_one_between_describes(text: Seq<char>)
    ensures
        describes(seq!['a', '?', 'c'], text) <==> (text.len() == 3 && text[0] == 'a' && text[2]
            == 'c'),
{
    let whole = seq!['a', '?', 'c'];
    let rest = seq!['?', 'c'];
    let end = seq!['c'];
    let none = Seq::<char>::empty();
    assert(whole.skip(1) =~= rest);
    assert(rest.skip(1) =~= end);
    assert(end.skip(1) =~= none);
    assert(describes(none, text.skip(1).skip(1).skip(1)) == (text.skip(1).skip(1).skip(1).len()
        == 0));
    assert(describes(end, text.skip(1).skip(1)) == (text.skip(1).skip(1).len() > 0
        && text.skip(1).skip(1)[0] == 'c' && describes(none, text.skip(1).skip(1).skip(1))));
    assert(describes(rest, text.skip(1)) == (text.skip(1).len() > 0 && describes(
        end,
        text.skip(1).skip(1),
    )));
    assert(describes(whole, text) == (text.len() > 0 && text[0] == 'a' && describes(
        rest,
        text.skip(1),
    )));
}

/// With a faithful engine, a pattern whose expression compiles matches
/// exactly the texts that it describes.
pub proof fn lemma_faithful_matches(pattern: Seq<char>, text: Seq<char>)
    requires
        engine_is_faithful(),
        regex_compiles(wildcard_regex(pattern)),
    ensures
        pattern_matches(pattern, text) == describes(pattern, text),
{
    assert(regex_is_match(wildcard_regex(pattern), text) == describes(pattern, text));
}

/// With a faithful engine, a pattern without wildcards whose expression
/// compiles matches a text exactly when the text is the pattern.
pub proof fn lemma_faithful_literal(pattern: Seq<char>, text: Seq<char>)
    requires
        engine_is_faithful(),
        regex_compiles(wildcard_regex(pattern)),
        is_literal(pattern),
    ensures
        pattern_matches(pattern, text) <==> pattern == text,
{
    lemma_faithful_matches(pattern, text);
    lemma_literal_describes_itself(pattern, text);
}

/// With a faithful engine, the pattern `*`, where its expression compiles,
/// matches every text.
pub proof fn lemma_faithful_star(text: Seq<char>)
    requires
        engine_is_faithful(),
        regex_compiles(wildcard_regex(seq!['*'])),
    ensures
        pattern_matches(seq!['*'], text),
{
    lemma_faithful_matches(seq!['*'], text);
    lemma_star_describes_all(text);
}

/// With a faithful engine, the pattern `a?c`, where its expression
/// compiles, matches exactly the texts of three characters that start with
/// `a` and end with `c`.
pub proof fn lemma_faithful_one_between(text: Seq<char>)
    requires
        engine_is_faithful(),
        regex_compiles(wildcard_regex(seq!['a', '?', 'c'])),
    ensures
        pattern_matches(seq!['a', '?', 'c'], text) <==> (text.len() == 3 && text[0] == 'a'
            && text[2] == 'c'),
{
    lemma_faithful_matches(seq!['a', '?', 'c'], text);
    lemma_one_between_describes(text);
}

} // verus!
