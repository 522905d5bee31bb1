use uf::models::{normalize_title, Entry};

#[test]
fn entry_new_strips_leading_whitespace_and_format_chars_from_title() {
    let entry = Entry::new(
        "\u{200f}\u{200d}   目开发代码合入记录 - 飞书云文档",
        "https://example.com",
        "bookmark",
        "",
    );

    assert_eq!(entry.title, "目开发代码合入记录 - 飞书云文档");
}

#[test]
fn a_normal_title_stays() {
    for title in ["  a b  ", "\u{feff}x\u{200b}", "plain", "\t\u{2060} "] {
        let once = normalize_title(title);
        assert_eq!(normalize_title(&once), once);
    }
}

#[test]
fn a_haystack_joins_all_fields() {
    let entry = Entry::new("t", "u", "s", "d");
    assert_eq!(entry.haystack(), "t u s d");
}
