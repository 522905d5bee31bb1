use uf::matchers::{can_match, fuzzy_score, FuzzyMatcher};

#[test]
fn fuzzy_score_matches_subsequence() {
    assert!(fuzzy_score("gh", "github").is_some());
}

#[test]
fn fuzzy_score_rejects_missing_char() {
    assert!(fuzzy_score("zz", "github").is_none());
}

#[test]
fn an_empty_query_matches_everything_with_nothing() {
    assert_eq!(fuzzy_score("", "github").unwrap().score, 0);
}

#[test]
fn tighter_matches_score_higher() {
    let tight = fuzzy_score("git", "git").unwrap().score;
    let loose = fuzzy_score("git", "g-i-t").unwrap().score;
    assert!(tight > loose);
    assert!(loose > 0);
}

#[test]
fn a_matcher_gives_what_a_single_call_gives() {
    let mut matcher = FuzzyMatcher::new("gh");
    for text in ["github", "GitLab home", "nothing"] {
        assert_eq!(matcher.score(text), fuzzy_score("gh", text));
    }
}

#[test]
fn only_long_words_on_long_texts_are_refused() {
    let long = "a".repeat(2622);
    assert!(can_match(&"a".repeat(2621), &long));
    assert!(!can_match(&long, &long));
    assert!(can_match(&long, &"a".repeat(2621)));
    assert!(can_match(&format!("{} {}", "a".repeat(2621), "a".repeat(2621)), &long));
    assert!(!can_match(&format!("{}\\ {}", "a".repeat(2000), "a".repeat(2000)), &long));
    assert!(fuzzy_score(&long, "a").is_none());
    assert!(fuzzy_score(&"ab ".repeat(2000), &long).is_none());
}

#[test]
fn backslashes_count_twice_in_words_that_are_not_ascii() {
    let long = "a".repeat(2622);
    assert!(can_match(&"\u{65e5}".repeat(2621), &long));
    assert!(!can_match(&"\u{65e5}".repeat(2622), &long));
    assert!(can_match(&"\\".repeat(2621), &long));
    assert!(can_match(&format!("\u{65e5}{}", "\\".repeat(1310)), &long));
    assert!(!can_match(&format!("\u{65e5}{}", "\\".repeat(1311)), &long));
    assert!(can_match(&format!("\u{65e5} {}", "\\".repeat(2621)), &long));
}

#[test]
fn late_letters_are_refused_where_an_accented_word_begins_with_them() {
    for (query, text) in [
        ("s\u{e9}", "\u{17f} x s \u{e9}"),
        ("S\u{e9}", "\u{17f} x s \u{e9}"),
        ("\u{3bc}\u{e9}", "\u{b5} x\u{3bc} \u{e9}"),
        ("a s\u{e9}\\$", "\u{17f} x s \u{e9}"),
    ] {
        assert!(!can_match(query, text), "{query}");
    }
    for (query, text) in [
        ("\u{e9}", "\u{3c2} \u{e9}"),
        ("\u{e9}s", "\u{17f} \u{e9}s x"),
        ("s \u{e9}", "\u{17f} x s \u{e9}"),
        ("s\u{e9}", "s \u{3c2} s \u{e9}"),
        ("se", "\u{17f} x s \u{e9}"),
        ("\u{3c3}\u{3b1}", "\u{3c2} \u{3c3} \u{3b1}"),
        ("s\u{e9}$", "\u{17f} x s\u{e9}"),
        ("!s\u{e9}x", "\u{17f} s x \u{e9}"),
        ("^s\u{e9}", "s\u{e9} \u{17f}"),
    ] {
        assert!(can_match(query, text), "{query}");
        assert!(fuzzy_score(query, text).is_some(), "{query}");
    }
    assert!(can_match("", "\u{17f}"));
    assert!(can_match("\u{e9}", "\u{3c2}"));
    assert!(fuzzy_score("\u{e9}", "\u{3c2}").is_none());
}

#[test]
fn the_longest_matches_keep_their_points() {
    let text = "a".repeat(2621);
    assert_eq!(fuzzy_score(&text, &text).unwrap().score, 65534);
}

#[test]
fn the_lists_of_letters_are_those_of_the_matcher() {
    let letters: Vec<char> = (0..=0x10FFFFu32).filter_map(char::from_u32).collect();
    let lower = nucleo_matcher::chars::to_lower_case;
    let late: Vec<char> = letters
        .iter()
        .copied()
        .filter(|c| c.is_lowercase() && lower(*c) != *c)
        .collect();
    assert_eq!(late.len(), 108);
    let others: String = letters
        .iter()
        .filter(|c| !late.contains(c))
        .take(70000)
        .collect();
    let all: String = late.iter().collect();
    let mut first = Vec::new();
    for c in letters {
        let hit = late.iter().any(|l| lower(*l) == lower(c));
        assert_eq!(can_match(&format!("{c}\u{e9}"), &all), !hit, "{c:?}");
        if hit {
            first.push(c);
        }
        let plain = lower(c);
        if nucleo_matcher::chars::normalize(plain) != plain {
            assert!(!can_match(&format!("s{c}"), "\u{17f}"), "{c:?}");
        }
    }
    for c in first {
        let word = format!("{c}\u{e9}");
        assert!(can_match(&word, &others), "{c:?}");
        for l in &late {
            assert_eq!(can_match(&word, &l.to_string()), lower(*l) != lower(c), "{c:?} {l:?}");
        }
    }
}
