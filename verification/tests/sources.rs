use uf::models::Entry;
use uf::repos::{
    dockerhub_detail_with_tags, dockerhub_entry_description, dockerhub_entry_tags,
    repo_detail_with_stars, repo_entry_description, repo_entry_stars, with_dockerhub_tags,
};
use uf::services::{parse_github_entries, parse_gitlab_entries};
use uf::sources::{
    clean_text, clean_title, collect_rows, deduplicate, is_macos_permission_denied_message,
    load_local_browser_entries, load_sqlite_history, parse_tsv_entries, Delivery,
};

#[test]
fn parse_tsv_entries_extracts_rows() {
    let rows = parse_tsv_entries("Title\thttps://example.com\tDetail\n", "bookmark", "x");
    assert_eq!(rows.len(), 1);
    assert_eq!(rows[0].url, "https://example.com");
    assert_eq!(rows[0].detail, "Detail");
}

#[test]
fn clean_title_strips_leading_whitespace_and_format_chars() {
    let title = clean_title("\u{200F}\u{200D}   目开发代码合入记录 - 飞书云文档");
    assert_eq!(title, "目开发代码合入记录 - 飞书云文档");
}

#[test]
fn detects_macos_privacy_permission_errors() {
    assert!(is_macos_permission_denied_message(
        "Io(Os { code: 1, kind: PermissionDenied, message: \"Operation not permitted\" })"
    ));
    assert!(is_macos_permission_denied_message(
        "copy sqlite db /Users/me/Library/Safari/History.db: Operation not permitted (os error 1)"
    ));
}

#[test]
fn deduplicate_keeps_unique_entries() {
    let entries = vec![
        Entry::new("A", "https://a", "github", ""),
        Entry::new("A", "https://a", "github", ""),
        Entry::new("B", "https://b", "gitlab", ""),
    ];
    assert_eq!(deduplicate(entries).len(), 2);
}

#[test]
fn dockerhub_detail_stores_description_and_tags_together() {
    let detail = dockerhub_detail_with_tags(
        "Small base image",
        &vec!["latest".to_string(), "1.0".to_string()],
    );
    let entry = Entry::new(
        "me/app",
        "https://hub.docker.com/r/me/app",
        "public",
        &detail,
    );

    assert_eq!(dockerhub_entry_description(&entry), "Small base image");
    assert_eq!(dockerhub_entry_tags(&entry), vec!["latest", "1.0"]);
}

#[test]
fn github_entries_carry_star_count() {
    let json = r#"[
        {"html_url":"https://github.com/me/repo","full_name":"me/repo","description":"demo","stargazers_count":13},
        {"html_url":"https://github.com/me/zero","full_name":"me/zero","description":"none","stargazers_count":0}
    ]"#;
    let rows = parse_github_entries(json).unwrap();
    assert_eq!(rows.len(), 2);
    assert_eq!(repo_entry_description(&rows[0]), "demo");
    assert_eq!(repo_entry_stars(&rows[0]), Some(13));
    assert_eq!(repo_entry_description(&rows[1]), "none");
    assert_eq!(repo_entry_stars(&rows[1]), None);
}

#[test]
fn gitlab_entries_carry_star_count() {
    let json = r#"[
        {"web_url":"https://gitlab.com/g/p","path_with_namespace":"g/p","description":"d","star_count":7}
    ]"#;
    let rows = parse_gitlab_entries(json).unwrap();
    assert_eq!(rows.len(), 1);
    assert_eq!(repo_entry_description(&rows[0]), "d");
    assert_eq!(repo_entry_stars(&rows[0]), Some(7));
}

#[test]
fn repo_stars_absent_when_no_marker() {
    let entry = Entry::new("t", "https://x", "github", "plain description");
    assert_eq!(repo_entry_description(&entry), "plain description");
    assert_eq!(repo_entry_stars(&entry), None);
}

#[test]
fn stars_come_back() {
    for stars in [1u64, 42, u64::MAX] {
        let entry = Entry::new("t", "u", "github", &repo_detail_with_stars("d", stars));
        assert_eq!(repo_entry_stars(&entry), Some(stars));
        assert_eq!(repo_entry_description(&entry), "d");
    }
    assert_eq!(repo_detail_with_stars("d", 0), "d");
}

#[test]
fn tags_replace_earlier_tags() {
    let first = vec!["1".to_string()];
    let second = vec!["2".to_string(), "3".to_string()];
    let entry = Entry::new("t", "u", "public", &dockerhub_detail_with_tags("d", &first));
    let entry = with_dockerhub_tags(entry, &second);
    assert_eq!(dockerhub_entry_tags(&entry), second);
    assert_eq!(dockerhub_entry_description(&entry), "d");
    let plain = Entry::new("t", "u", "public", "d");
    assert!(dockerhub_entry_tags(&plain).is_empty());
}

#[test]
fn rows_without_an_address_are_left_out() {
    let rows = parse_tsv_entries("a\t\tb\nonly\n\thttps://x\n", "history", "d");
    assert_eq!(rows.len(), 1);
    assert_eq!(rows[0].url, "https://x");
    assert_eq!(rows[0].title, "");
    assert_eq!(rows[0].detail, "d");
}

#[test]
fn of_equal_keys_the_first_stays() {
    let entries = vec![
        Entry::new("A", "https://a", "history", "first"),
        Entry::new("B", "", "history", "no address"),
        Entry::new("C", "https://c", "history", ""),
        Entry::new("A", "https://a", "history", "second"),
        Entry::new("A", "https://a", "bookmark", "third"),
    ];
    let details: Vec<String> = deduplicate(entries).into_iter().map(|e| e.detail).collect();
    assert_eq!(details, vec!["first", "", "third"]);
}

#[test]
fn deduplicating_twice_changes_nothing() {
    let make = || {
        vec![
            Entry::new("A", "https://a", "github", "1"),
            Entry::new("A", "https://a", "github", "2"),
            Entry::new("A", "https://b", "github", "3"),
        ]
    };
    let once = deduplicate(make());
    assert_eq!(once.len(), 2);
    assert_eq!(once[0].detail, "1");
    let twice = deduplicate(deduplicate(make()));
    assert_eq!(twice, once);
}

#[test]
fn text_is_cleaned_to_one_line() {
    assert_eq!(clean_text(" a\tb\r\nc "), " a b  c ");
}

#[test]
fn other_errors_are_no_privacy_errors() {
    assert!(is_macos_permission_denied_message("PERMISSION DENIED"));
    assert!(!is_macos_permission_denied_message("no such file"));
}

#[test]
fn failed_queries_are_retried_on_a_copy() {
    let failed: Result<String, String> = Err("database is locked".to_string());
    assert!(load_sqlite_history(&failed, "history", "d").is_none());
    let answered: Result<String, String> = Ok("T\thttps://t\n".to_string());
    let rows = load_sqlite_history(&answered, "history", "d").unwrap();
    assert_eq!(rows, vec![Entry::new("T", "https://t", "history", "d")]);
}

#[test]
fn failed_deliveries_are_reported() {
    let list = vec![
        Delivery {
            label: "one".to_string(),
            rows: Ok(vec![Entry::new("A", "https://a", "history", "")]),
        },
        Delivery {
            label: "two".to_string(),
            rows: Err("gone".to_string()),
        },
    ];
    let (entries, reports) = collect_rows(&list);
    assert_eq!(entries.len(), 1);
    assert_eq!(reports.len(), 1);
    assert!(reports[0].contains("two"));
    assert!(reports[0].contains("gone"));
}

#[test]
fn browser_rows_come_in_order_without_repeats() {
    let chromium = Ok(vec![Entry::new("A", "https://a", "history", "c")]);
    let firefox = Err("locked".to_string());
    let safari = Ok(vec![
        Entry::new("A", "https://a", "history", "s"),
        Entry::new("B", "https://b", "bookmark", "s"),
    ]);
    let (entries, reports) = load_local_browser_entries(chromium, firefox, safari);
    assert_eq!(entries.len(), 2);
    assert_eq!(entries[0].detail, "c");
    assert_eq!(entries[1].title, "B");
    assert_eq!(reports.len(), 1);
}
