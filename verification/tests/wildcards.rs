use hr_cli::wildcard::{match_verdict, wildcard_matches, wildcard_to_regex};

#[test]
fn regex_of_a_pattern_is_exact() {
    assert_eq!(wildcard_to_regex(""), "(?s)^$");
    assert_eq!(wildcard_to_regex("ali*"), "(?s)^ali.*$");
    assert_eq!(wildcard_to_regex("a?c"), "(?s)^a.c$");
    assert_eq!(wildcard_to_regex("a.b*c?"), "(?s)^a\\.b.*c.$");
    assert_eq!(wildcard_to_regex("**"), "(?s)^.*.*$");
}

#[test]
fn regex_escapes_every_meta_character() {
    assert_eq!(
        wildcard_to_regex("\\.+()|[]{}^$#&-~"),
        "(?s)^\\\\\\.\\+\\(\\)\\|\\[\\]\\{\\}\\^\\$\\#\\&\\-\\~$"
    );
}

#[test]
fn regex_leaves_other_characters_alone() {
    assert_eq!(
        wildcard_to_regex("aZ09 _%/!\"'<>=,;:@\u{e9}\u{4e16}\n\t"),
        "(?s)^aZ09 _%/!\"'<>=,;:@\u{e9}\u{4e16}\n\t$"
    );
}

#[test]
fn regex_of_one_character_agrees_with_the_escape_of_the_regex_crate() {
    for code in 0u32..0x3000 {
        if let Some(c) = char::from_u32(code) {
            if c == '*' || c == '?' {
                continue;
            }
            let text = c.to_string();
            assert_eq!(
                wildcard_to_regex(&text),
                format!("(?s)^{}$", regex::escape(&text))
            );
        }
    }
}

#[test]
fn literal_pattern_matches_only_itself() {
    let texts = [
        "", "a", "alice", "Alice", "alice ", " alice", "alic", "a.c", "abc", "a+b", "a|b", "(x)",
        "[x]", "{1}", "^a$", "a\\b", "#1", "x-y", "x&y", "~", "\u{e9}t\u{e9}", "a\nb",
    ];
    for pattern in texts {
        for text in texts {
            assert_eq!(
                wildcard_matches(pattern, text),
                pattern == text,
                "pattern {:?} text {:?}",
                pattern,
                text
            );
        }
    }
}

#[test]
fn star_absorbs_every_text() {
    for text in ["", "a", "alice", "two words", "a\nb", "\n", "\r\n", "*", "?", "\u{4e16}\u{754c}"] {
        assert!(wildcard_matches("*", text), "text {:?}", text);
    }
}

#[test]
fn question_mark_stands_for_exactly_one_character() {
    for text in ["abc", "a.c", "a c", "a?c", "a*c", "a\nc", "a\u{e9}c", "a\u{4e16}c", "a\u{1f600}c"] {
        assert!(wildcard_matches("a?c", text), "text {:?}", text);
    }
    for text in ["", "ac", "abbc", "abcd", "xabc", "Abc", "abC", "abd", "bbc", "a\u{e9}\u{e9}c"] {
        assert!(!wildcard_matches("a?c", text), "text {:?}", text);
    }
}

#[test]
fn matching_is_anchored_at_both_ends() {
    assert!(!wildcard_matches("ali", "alice"));
    assert!(!wildcard_matches("ice", "alice"));
    assert!(!wildcard_matches("lic", "alice"));
    assert!(wildcard_matches("ali*", "alice"));
    assert!(wildcard_matches("*ice", "alice"));
    assert!(wildcard_matches("*lic*", "alice"));
    assert!(wildcard_matches("*lead", "team lead"));
    assert!(!wildcard_matches("*lead", "team leader"));
}

#[test]
fn matching_is_case_sensitive() {
    assert!(wildcard_matches("Alice", "Alice"));
    assert!(!wildcard_matches("alice", "Alice"));
    assert!(!wildcard_matches("ALI*", "alice"));
}

#[test]
fn empty_pattern_matches_only_empty_text() {
    assert!(wildcard_matches("", ""));
    assert!(!wildcard_matches("", "a"));
    assert!(!wildcard_matches("", " "));
    assert!(!wildcard_matches("", "\n"));
}

#[test]
fn star_may_stand_for_nothing() {
    assert!(wildcard_matches("a*c", "ac"));
    assert!(wildcard_matches("a*c", "abc"));
    assert!(wildcard_matches("a*c", "abbbc"));
    assert!(wildcard_matches("a*c", "acxc"));
    assert!(!wildcard_matches("a*c", "acx"));
    assert!(wildcard_matches("*a*b*", "xaybz"));
    assert!(!wildcard_matches("*a*b*", "xbya"));
}

#[test]
fn special_characters_of_regular_expressions_are_literal() {
    assert!(wildcard_matches("a.c", "a.c"));
    assert!(!wildcard_matches("a.c", "abc"));
    assert!(wildcard_matches("a+", "a+"));
    assert!(!wildcard_matches("a+", "aa"));
    assert!(wildcard_matches("(a|b)", "(a|b)"));
    assert!(!wildcard_matches("(a|b)", "a"));
    assert!(wildcard_matches("[a-z]", "[a-z]"));
    assert!(!wildcard_matches("[a-z]", "q"));
    assert!(wildcard_matches("\\d", "\\d"));
    assert!(!wildcard_matches("\\d", "7"));
    assert!(wildcard_matches("(", "("));
    assert!(wildcard_matches("a{2}", "a{2}"));
    assert!(!wildcard_matches("a{2}", "aa"));
}

#[test]
fn verdict_counts_a_hit_and_nothing_else() {
    assert!(match_verdict(Ok(true)));
    assert!(!match_verdict(Ok(false)));
    let broken = regex::Regex::new("(").unwrap_err();
    assert!(!match_verdict(Err(broken)));
}

#[test]
fn pattern_too_large_to_compile_matches_nothing() {
    let pattern = "?".repeat(100_000);
    let text = "a".repeat(100_000);
    assert!(regex::Regex::new(&wildcard_to_regex(&pattern)).is_err());
    assert!(!wildcard_matches(&pattern, &text));
}

#[test]
fn literal_pattern_too_large_to_compile_does_not_match_itself() {
    let pattern = "a".repeat(2_000_000);
    assert!(regex::Regex::new(&wildcard_to_regex(&pattern)).is_err());
    assert!(!wildcard_matches(&pattern, &pattern));
}

/// What a pattern describes, computed character by character.
fn describes(pattern: &[char], text: &[char]) -> bool {
    match pattern.split_first() {
        None => text.is_empty(),
        Some((&'*', rest)) => {
            describes(rest, text) || (!text.is_empty() && describes(pattern, &text[1..]))
        }
        Some((&'?', rest)) => !text.is_empty() && describes(rest, &text[1..]),
        Some((c, rest)) => !text.is_empty() && text[0] == *c && describes(rest, &text[1..]),
    }
}

/// Every word over the alphabet of at most the given length.
fn words(alphabet: &[char], max_len: usize) -> Vec<Vec<char>> {
    let mut all: Vec<Vec<char>> = vec![Vec::new()];
    let mut last: Vec<Vec<char>> = vec![Vec::new()];
    for _ in 0..max_len {
        let mut next = Vec::new();
        for word in &last {
            for c in alphabet {
                let mut longer = word.clone();
                longer.push(*c);
                next.push(longer);
            }
        }
        all.extend(next.iter().cloned());
        last = next;
    }
    all
}

fn assert_agreement(patterns: &[Vec<char>], texts: &[Vec<char>]) {
    for pattern in patterns {
        let pattern_text: String = pattern.iter().collect();
        for text in texts {
            let text_text: String = text.iter().collect();
            assert_eq!(
                wildcard_matches(&pattern_text, &text_text),
                describes(pattern, text),
                "pattern {:?} text {:?}",
                pattern_text,
                text_text
            );
        }
    }
}

#[test]
fn matcher_agrees_with_the_meaning_of_short_patterns() {
    let patterns = words(&['a', '*', '?', '.'], 2);
    let texts = words(&['a', 'b', '.', '\n'], 3);
    assert_agreement(&patterns, &texts);
}

#[test]
fn matcher_agrees_with_the_meaning_of_patterns_of_three() {
    let patterns: Vec<Vec<char>> =
        words(&['a', '*', '?'], 3).into_iter().filter(|p| p.len() == 3).collect();
    let texts = words(&['a', 'b'], 4);
    assert_agreement(&patterns, &texts);
}

#[test]
fn matcher_agrees_with_the_meaning_of_longer_patterns() {
    let patterns: Vec<Vec<char>> = ["a*b?c", "*a*a*a*", "??*??", "a**b", "*?*c", "*b*a"]
        .iter()
        .map(|p| p.chars().collect())
        .collect();
    let texts = words(&['a', 'b', 'c'], 4);
    assert_agreement(&patterns, &texts);
}

#[test]
fn matcher_agrees_with_the_meaning_beyond_ascii() {
    let patterns: Vec<Vec<char>> = ["a\u{e9}*\u{4e16}?", "?\u{4e16}*", "*\u{e9}", "\u{e9}?\u{e9}"]
        .iter()
        .map(|p| p.chars().collect())
        .collect();
    let texts = words(&['a', '\u{e9}', '\u{4e16}'], 4);
    assert_agreement(&patterns, &texts);
}
