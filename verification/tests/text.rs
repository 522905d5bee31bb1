use uf::text::{
    contains, cut, decimal_of, ends_with, first_pieces, first_place, glue, glue3, head_of, join, lines_of,
    lowercased, pieces, position, read_number, strip_prefix, strip_suffix, trimmed, trimmed_end,
    words_of, Class, NumberError,
};

#[test]
fn white_space_is_that_of_unicode() {
    for code in 0..=0x10FFFFu32 {
        if let Some(c) = char::from_u32(code) {
            assert_eq!(Class::Space.contains(c), c.is_whitespace());
        }
    }
}

#[test]
fn texts_are_trimmed_as_strings_are() {
    for text in ["", "  a ", "\u{3000}b\t\n", "c", " \u{85} "] {
        assert_eq!(trimmed(text, Class::Space), text.trim());
        assert_eq!(trimmed_end(text, Class::Space), text.trim_end());
    }
    assert_eq!(trimmed_end("a//", Class::Just('/')), "a");
    assert_eq!(trimmed("/a/", Class::Just('/')), "a");
}

#[test]
fn numbers_are_read_as_integers_are() {
    for text in [
        "", "0", "007", "+5", "-1", "+", "12x", " 1", "18446744073709551615",
        "18446744073709551616", "99999999999999999999999", "९",
    ] {
        match (read_number(text), text.parse::<u64>()) {
            (Ok(a), Ok(b)) => assert_eq!(a, b),
            (Err(a), Err(b)) => assert_eq!(a.message(), b.to_string()),
            (a, b) => panic!("{text}: {a:?} {b:?}"),
        }
    }
    assert_eq!(read_number(""), Err(NumberError::Empty));
    assert_eq!(read_number("x"), Err(NumberError::InvalidDigit));
    assert_eq!(read_number("18446744073709551616"), Err(NumberError::TooLarge));
}

#[test]
fn numbers_come_back_from_their_decimals() {
    for n in [0u64, 1, 9, 10, 1000, u64::MAX] {
        assert_eq!(decimal_of(n), n.to_string());
        assert_eq!(read_number(&decimal_of(n)), Ok(n));
    }
}

#[test]
fn lines_end_as_those_of_strings_do() {
    for text in ["", "\n", "a", "a\n", "a\r\nb\rc\n\n", "\r\n", "a\nb"] {
        let expected: Vec<String> = text.lines().map(str::to_string).collect();
        assert_eq!(lines_of(text), expected);
    }
}

#[test]
fn texts_are_split_at_a_character() {
    assert_eq!(pieces("a,,b", Class::Just(',')), vec!["a", "", "b"]);
    assert_eq!(pieces("", Class::Just(',')), vec![""]);
    assert_eq!(first_pieces("a\tb\tc\td", 3, Class::Just('\t')), vec!["a", "b", "c\td"]);
    assert_eq!(words_of("  a b\u{3000}c "), vec!["a", "b", "c"]);
}

#[test]
fn texts_are_found_in_texts() {
    assert!(contains("permission denied", "denied"));
    assert!(contains("x", ""));
    assert!(!contains("", "x"));
    assert_eq!(position("naïve", "ve"), Some(3));
    assert_eq!(position("aab", "ab"), Some(1));
    assert_eq!(position("aab", "c"), None);
    assert_eq!(first_place("a/b/", Class::Just('/')), Some(1));
    assert_eq!(cut("a--b--c", "--"), Some(("a", "b--c")));
    assert_eq!(cut("abc", "--"), None);
}

#[test]
fn ends_are_taken_off() {
    assert_eq!(strip_prefix("saved_at\t5", "saved_at\t"), Some("5".to_string()));
    assert_eq!(strip_prefix("x", "xy"), None);
    assert_eq!(strip_suffix("5sec", "sec"), Some("5".to_string()));
    assert_eq!(strip_suffix("5s", "sec"), None);
    assert!(ends_with("x/api/v4", "/api/v4"));
}

#[test]
fn texts_are_put_together() {
    let list = vec!["a".to_string(), "b".to_string(), "c".to_string()];
    assert_eq!(join(&list, ", "), "a, b, c");
    assert_eq!(join(&Vec::new(), ","), "");
    assert_eq!(glue("a", "b"), "ab");
    assert_eq!(glue3("a", "b", "c"), "abc");
}

#[test]
fn only_ascii_letters_are_lowered() {
    assert_eq!(lowercased("ABz É Ω"), "abz É Ω");
}

#[test]
fn heads_end_between_characters() {
    let text = "a\u{e9}\u{65e5}\u{1f600}z";
    let lengths: Vec<usize> = (0..12).map(|limit| head_of(text, limit).len()).collect();
    assert_eq!(lengths, vec![0, 1, 1, 3, 3, 3, 6, 6, 6, 6, 10, 11]);
    for limit in 0..12 {
        assert!(text.starts_with(&head_of(text, limit)));
    }
}
