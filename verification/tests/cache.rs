use uf::cache::{
    escape_field, format_cached_entries, load_cached_remote_entries,
    load_cached_remote_with_refresh_check, parse_cached_entries, remote_cache_needs_refresh,
    unescape_field, CachedEntries,
};
use uf::models::Entry;
use uf::services::parse_github_entries;

fn sample() -> CachedEntries {
    CachedEntries {
        saved_at: 17,
        entries: vec![
            Entry::new("a%09b", "https://a", "github", "line\nWEB_FZF_STARS\t5"),
            Entry::new("", "https://b", "gitlab", ""),
        ],
    }
}

#[test]
fn fields_come_back() {
    for text in ["", "plain", "%", "%25", "a\tb\nc\rd", "100%\t%0A", "名%", "%2"] {
        let escaped = escape_field(text);
        assert!(!escaped.contains(['\t', '\n', '\r']));
        assert_eq!(unescape_field(&escaped), text);
    }
    assert_eq!(escape_field("%\t\n\r"), "%25%09%0A%0D");
    assert_eq!(unescape_field("%41%"), "%41%");
}

#[test]
fn stored_entries_come_back() {
    let text = format_cached_entries(&sample());
    assert_eq!(
        text,
        "saved_at\t17\na%2509b\thttps://a\tgithub\tline%0AWEB_FZF_STARS%095\n\thttps://b\tgitlab\t\n"
    );
    let cached = parse_cached_entries(&text).unwrap();
    assert_eq!(cached.saved_at, 17);
    assert_eq!(cached.entries, sample().entries);
}

#[test]
fn broken_caches_are_refused() {
    let reason = |text: &str| parse_cached_entries(text).unwrap_err();
    assert_eq!(reason(""), "empty cache");
    assert_eq!(reason("saved\t1\n"), "invalid cache header");
    assert_eq!(
        reason("saved_at\tx\n"),
        "invalid cache timestamp: invalid digit found in string"
    );
    assert_eq!(
        reason("saved_at\t\n"),
        "invalid cache timestamp: cannot parse integer from empty string"
    );
    assert_eq!(
        reason("saved_at\t18446744073709551616\n"),
        "invalid cache timestamp: number too large to fit in target type"
    );
    assert_eq!(reason("saved_at\t1\na\tb\n"), "invalid cache row");
}

#[test]
fn blank_lines_and_missing_details_are_accepted() {
    let cached = parse_cached_entries("saved_at\t1\n  \na\tb\tc\n").unwrap();
    assert_eq!(cached.entries, vec![Entry::new("a", "b", "c", "")]);
}

#[test]
fn old_or_empty_caches_are_refreshed() {
    let text = format_cached_entries(&sample());
    let file = Some(text.as_str());
    assert!(!remote_cache_needs_refresh(file, Some(59), 60));
    assert!(remote_cache_needs_refresh(file, Some(60), 60));
    assert!(remote_cache_needs_refresh(file, None, 60));
    assert!(remote_cache_needs_refresh(None, Some(0), 60));
    assert!(remote_cache_needs_refresh(Some("saved_at\t1\n"), Some(0), 60));
    assert!(remote_cache_needs_refresh(Some("broken"), Some(0), 60));
    let (entries, due) = load_cached_remote_with_refresh_check(file, Some(1), 60);
    assert_eq!(entries.len(), 2);
    assert!(!due);
    assert_eq!(load_cached_remote_entries(file).len(), 2);
    assert!(load_cached_remote_entries(Some("broken")).is_empty());
}

#[test]
fn old_caches_are_still_shown() {
    let text = format_cached_entries(&sample());
    for age in [Some(0), Some(u64::MAX), None] {
        let (entries, _) = load_cached_remote_with_refresh_check(Some(&text), age, 1);
        assert_eq!(entries, sample().entries);
    }
}

#[test]
fn what_a_service_delivers_is_stored_and_read_back() {
    let answer = r#"[
        {"html_url": "https://github.com/me/a\tb", "full_name": " me/a ", "description": "d\n%", "stargazers_count": 3},
        {"html_url": "https://github.com/me/c", "name": ""}
    ]"#;
    let entries = parse_github_entries(answer).unwrap();
    assert_eq!(entries.len(), 2);
    let text = format_cached_entries(&CachedEntries { saved_at: 0, entries });
    let stored = parse_cached_entries(&text).unwrap();
    assert_eq!(stored.entries, parse_github_entries(answer).unwrap());
}
