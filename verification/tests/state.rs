use uf::actions::{
    apply_action, back_to_docker_tags, cancel_config_edit, commit_config_edit, config_shared,
    confirm_docker_action, confirm_repo_action, docker_action_labels, entry_opened, handle_event,
    handle_key, move_selection_down, move_selection_up, open_selected_entry, page_selection_down,
    repo_action_labels, repo_ssh_url, select_docker_tag, start_config_edit, Effect, UiEvent,
};
use uf::config::{Config, RuntimeConfig};
use uf::config_items::{build_config_items, format_duration, ConfigEditKind};
use uf::config_rows::{config_display_rows, ConfigDisplayRow};
use uf::input::{parse_next_input_key, InputCode, InputKey};
use uf::keymap::{resolve_action, Action, AppModeKind};
use uf::layout::{display_width, pad_or_truncate, pop_grapheme, truncate_to_width};
use uf::models::Entry;
use uf::rank::{best_entry, rank_entries_all, sort_ranked};
use uf::refresh::RefreshRequest;
use uf::state::{rows_fit, AppMode, AppState};
use uf::tabs::Tab;

fn app(entries: Vec<Entry>) -> AppState {
    let config = Config::default();
    let runtime_config = RuntimeConfig::new(&config);
    AppState::new(entries, config, runtime_config)
}

fn history(count: usize) -> Vec<Entry> {
    (0..count)
        .map(|i| Entry::new(&format!("Item {i}"), &format!("https://x/{i}"), "history", ""))
        .collect()
}

fn image(tags: &str) -> Entry {
    let detail = if tags.is_empty() {
        "d".to_string()
    } else {
        format!("d\nWEB_FZF_TAGS\t{tags}")
    };
    Entry::new("me/app", "https://hub.docker.com/r/me/app", "public", &detail)
}

fn repo(source: &str) -> Entry {
    Entry::new("me/repo", "https://host.example/me/repo", source, "")
}

fn on_tab(entries: Vec<Entry>, tab: Tab) -> AppState {
    let mut app = app(entries);
    app.tab = tab;
    app.recompute();
    app
}

fn select_setting(app: &mut AppState, level1: &str, level3: &str) {
    app.tab = Tab::Config;
    app.query = String::new();
    app.recompute();
    let rows = config_display_rows(&app.config_items, "");
    app.selected = rows
        .iter()
        .position(|row| match row {
            ConfigDisplayRow::Item(i) => {
                app.config_items[*i].level1 == level1 && app.config_items[*i].level3 == level3
            }
            ConfigDisplayRow::Group(_) => false,
        })
        .unwrap();
}

fn type_text(app: &mut AppState, text: &str) {
    for c in text.chars() {
        app.push_config_edit_char(c);
    }
}

// Input

#[test]
fn keys_are_read_from_bytes() {
    let cases: Vec<(&[u8], InputKey)> = vec![
        (b"\x1B[A", InputKey::new(InputCode::Up)),
        (b"\x1B[C", InputKey::new(InputCode::Right)),
        (b"\x1B[D", InputKey::new(InputCode::Left)),
        (b"\x1B[H", InputKey::new(InputCode::Home)),
        (b"\x1B[F", InputKey::new(InputCode::End)),
        (b"\x1B[1~", InputKey::new(InputCode::Home)),
        (b"\x1B[8~", InputKey::new(InputCode::End)),
        (b"\x1B[5~", InputKey::new(InputCode::PageUp)),
        (b"\x1B[6~", InputKey::new(InputCode::PageDown)),
        (b"\t", InputKey::new(InputCode::Tab)),
        (b"\x7F", InputKey::new(InputCode::Backspace)),
        (b"\x01", InputKey::ctrl('a')),
        (b"\x1A", InputKey::ctrl('z')),
        (b"\x1B", InputKey::new(InputCode::Esc)),
        (b"a", InputKey::new(InputCode::Char('a'))),
    ];
    for (bytes, key) in cases {
        let mut buffer = bytes.to_vec();
        assert_eq!(parse_next_input_key(&mut buffer), Some(key));
        assert!(buffer.is_empty());
    }
    let mut unknown = b"\x1B[Z".to_vec();
    assert_eq!(
        parse_next_input_key(&mut unknown),
        Some(InputKey::new(InputCode::Esc))
    );
    assert_eq!(unknown, b"[Z");
}

#[test]
fn incomplete_characters_wait_and_broken_bytes_go() {
    let mut part = vec![0xE4, 0xB8];
    assert_eq!(parse_next_input_key(&mut part), None);
    assert_eq!(part.len(), 2);
    let mut broken = vec![0xFF, b'a'];
    assert_eq!(parse_next_input_key(&mut broken), None);
    assert_eq!(broken, vec![b'a']);
    let mut split = vec![0xC3, b'a'];
    assert_eq!(parse_next_input_key(&mut split), None);
    assert_eq!(split, vec![b'a']);
    assert_eq!(parse_next_input_key(&mut Vec::new()), None);
}

#[test]
fn typed_text_comes_out() {
    let text = "aß中🎉";
    let mut buffer = text.as_bytes().to_vec();
    let mut out = String::new();
    while let Some(key) = parse_next_input_key(&mut buffer) {
        match key.code {
            InputCode::Char(c) => out.push(c),
            other => panic!("{other:?}"),
        }
    }
    assert_eq!(out, text);
}

#[test]
fn only_escape_quits() {
    let keys = [
        InputKey::new(InputCode::Enter),
        InputKey::ctrl('c'),
        InputKey::ctrl('q'),
        InputKey::new(InputCode::Char('q')),
    ];
    for key in keys {
        assert_ne!(resolve_action(AppModeKind::Normal, key), Some(Action::Quit));
    }
    let escape = InputKey::new(InputCode::Esc);
    assert_eq!(resolve_action(AppModeKind::Normal, escape), Some(Action::Quit));
    assert_eq!(
        resolve_action(AppModeKind::TagList, escape),
        Some(Action::BackToNormal)
    );
    assert_eq!(
        resolve_action(AppModeKind::ActionMenu, escape),
        Some(Action::BackToTags)
    );
    assert_eq!(
        resolve_action(AppModeKind::ConfigEdit, escape),
        Some(Action::CancelConfigEdit)
    );
}

#[test]
fn characters_are_typed_where_text_is_entered() {
    let key = InputKey::new(InputCode::Char('k'));
    let typed = Some(Action::InsertChar('k'));
    assert_eq!(resolve_action(AppModeKind::Normal, key), typed);
    assert_eq!(resolve_action(AppModeKind::ConfigEdit, key), typed);
    assert_eq!(resolve_action(AppModeKind::RepoMenu, key), Some(Action::MoveUp));
    assert_eq!(resolve_action(AppModeKind::ConfigEdit, InputKey::ctrl('k')), None);
    assert_eq!(
        resolve_action(AppModeKind::Normal, InputKey::ctrl('r')),
        Some(Action::RefreshCurrentTab)
    );
}

// Layout

#[test]
fn texts_are_cut_to_their_columns() {
    assert_eq!(truncate_to_width("abc", 3), "abc");
    assert_eq!(truncate_to_width("abcd", 3), "ab…");
    assert_eq!(truncate_to_width("中文字", 5), "中文…");
    assert_eq!(truncate_to_width("中文字", 4), "中…");
    assert_eq!(truncate_to_width("ab", 1), "…");
    assert_eq!(truncate_to_width("ab", 0), "…");
    assert_eq!(pad_or_truncate("ab", 4), "ab  ");
    assert_eq!(pad_or_truncate("abcde", 4), "abc…");
    assert_eq!(display_width("e\u{301}"), 1);
    for width in 1..8 {
        assert!(display_width(&truncate_to_width("a中e\u{301}文b", width)) <= width);
    }
}

#[test]
fn whole_graphemes_are_removed() {
    let mut text = "ae\u{301}👨‍👩‍👧".to_string();
    pop_grapheme(&mut text);
    assert_eq!(text, "ae\u{301}");
    pop_grapheme(&mut text);
    assert_eq!(text, "a");
    pop_grapheme(&mut text);
    pop_grapheme(&mut text);
    assert_eq!(text, "");
}

// Ranking

#[test]
fn better_scores_come_first_and_ties_keep_their_order() {
    let sorted = sort_ranked(&vec![(1, 0), (5, 1), (1, 2), (9, 3), (5, 4)]);
    assert_eq!(sorted, vec![(9, 3), (5, 1), (5, 4), (1, 0), (1, 2)]);
}

#[test]
fn repositories_and_bookmarks_are_preferred() {
    let entries = vec![
        Entry::new("same", "https://u", "history", ""),
        Entry::new("same", "https://u", "bookmark", ""),
        Entry::new("same", "https://u", "gitlab", ""),
    ];
    let ranked = rank_entries_all(&entries, "");
    assert_eq!(ranked, vec![(20, 2), (10, 1), (0, 0)]);
}

#[test]
fn entries_can_be_searched_within_limits() {
    let long = vec![Entry::new(&"a".repeat(3000), "https://x", "history", "")];
    assert!(rows_fit(&long, "a"));
    assert!(!rows_fit(&long, &"a".repeat(2622)));
    let mut app = app(long);
    assert!(app.is_searchable());
    app.query = "a".repeat(2622);
    assert!(!app.is_searchable());
}

#[test]
fn the_best_entry_is_the_first_of_the_best() {
    let entries = vec![
        Entry::new("none", "https://other", "history", ""),
        Entry::new("abc", "https://one", "history", ""),
        Entry::new("abc", "https://one", "github", ""),
        Entry::new("abc", "https://one", "gitlab", ""),
        Entry::new("abc", "https://one", "bookmark", ""),
    ];
    let best = best_entry(&entries, "abc").unwrap();
    assert_eq!(best.source, "github");
    let ranked = rank_entries_all(&entries, "abc");
    let places: Vec<usize> = ranked.iter().map(|scored| scored.1).collect();
    assert_eq!(places, vec![2, 3, 4, 1]);
    assert_eq!(ranked[0].0, ranked[1].0);
    assert_eq!(ranked[0].0, ranked[3].0 + 20);
    assert!(best_entry(&entries, "zzz").is_none());
}

#[test]
fn headings_stand_once_and_in_order() {
    let app = app(Vec::new());
    let headings = |query: &str| -> Vec<String> {
        config_display_rows(&app.config_items, query)
            .into_iter()
            .filter_map(|row| match row {
                ConfigDisplayRow::Group(name) => Some(name),
                ConfigDisplayRow::Item(_) => None,
            })
            .collect()
    };
    assert_eq!(headings(""), vec!["Browser", "GitHub", "GitLab", "DockerHub", "System"]);
    assert_eq!(headings("preview pane"), vec!["System"]);
    assert!(headings("qqqqqq").is_empty());
}

// Moving

#[test]
fn the_selection_stays_in_the_list_and_in_view() {
    let mut app = app(history(25));
    app.set_result_viewport_height(5);
    app.page_down();
    assert_eq!((app.selected, app.scroll_start), (10, 6));
    app.page_down();
    app.page_down();
    assert_eq!((app.selected, app.scroll_start), (24, 20));
    app.move_down();
    assert_eq!(app.selected, 24);
    assert_eq!(app.visible_rows(), vec![20, 21, 22, 23, 24]);
    assert_eq!(app.selected_in_window(), 4);
    app.page_up();
    assert_eq!((app.selected, app.scroll_start), (14, 14));
    app.jump_top();
    assert_eq!((app.selected, app.scroll_start), (0, 0));
    app.move_up();
    assert_eq!(app.selected, 0);
    app.jump_bottom();
    assert_eq!(app.selected, 24);
    app.move_up();
    app.move_down();
    assert_eq!(app.selected, 24);
    app.set_result_viewport_height(0);
    assert!(app.visible_rows().is_empty());
    assert_eq!(app.selected_in_window(), 0);
}

#[test]
fn no_more_results_than_the_limit_are_shown() {
    let app = app(history(301));
    assert_eq!(app.visible.len(), 300);
}

#[test]
fn the_query_filters_when_it_is_flushed() {
    let mut app = app(history(12));
    app.push_char('1');
    app.push_char('1');
    assert!(app.dirty);
    assert_eq!(app.visible.len(), 12);
    app.flush_deferred_recompute();
    assert!(!app.dirty);
    assert_eq!(app.selected_entry().unwrap().title, "Item 11");
    app.backspace();
    app.backspace();
    app.flush_deferred_recompute();
    assert_eq!(app.visible.len(), 12);
}

#[test]
fn the_cursor_blinks_until_a_key_is_pressed() {
    let mut app = app(Vec::new());
    assert!(!app.blink(499));
    assert!(app.cursor_visible);
    assert!(app.blink(500));
    assert!(!app.cursor_visible);
    app.wake();
    assert!(app.cursor_visible);
}

// Tabs

#[test]
fn tabs_form_a_circle() {
    let mut app = app(Vec::new());
    let start = app.tab;
    for _ in 0..app.visible_tabs().len() {
        app.next_tab();
    }
    assert_eq!(app.tab, start);
    app.next_tab();
    app.previous_tab();
    assert_eq!(app.tab, start);
    app.toggle_config_tab();
    app.toggle_config_tab();
    assert!(app.config_tab_visible);
}

#[test]
fn without_sources_the_configuration_is_shown() {
    let mut app = app(history(1));
    for source in ["Browser", "GitHub", "GitLab", "DockerHub"] {
        app.set_source_enabled(source, false);
    }
    assert_eq!(app.visible_tabs(), vec![Tab::Config]);
    assert_eq!(app.tab, Tab::Config);
    assert!(!app.config.include_browser);
    assert!(!app.runtime_config.include_dockerhub());
    app.set_source_enabled("Nothing", true);
    assert_eq!(app.visible_tabs(), vec![Tab::Config]);
}

#[test]
fn replacing_keeps_the_other_entries_in_order() {
    let mut app = app(vec![
        Entry::new("A", "https://a", "github", ""),
        Entry::new("B", "https://b", "history", ""),
        Entry::new("C", "https://c", "gitlab", ""),
    ]);
    handle_event(
        &mut app,
        UiEvent::ReplaceSourceEntries {
            sources: vec!["history".to_string(), "bookmark".to_string()],
            entries: vec![
                Entry::new("D", "https://d", "history", ""),
                Entry::new("D", "https://d", "history", "again"),
                Entry::new("E", "", "history", ""),
            ],
        },
    );
    let titles: Vec<&str> = app.entries.iter().map(|e| e.title.as_str()).collect();
    assert_eq!(titles, vec!["A", "C", "D"]);
    assert_eq!(app.message, "Browser data refreshed (3 items).");
    handle_event(&mut app, UiEvent::Status("done".to_string()));
    assert_eq!(app.message, "done");
}

#[test]
fn a_status_is_shown_whatever_the_query() {
    let mut app = app(vec![Entry::new("\u{17f} x s \u{e9}", "https://one", "history", "")]);
    app.query = "s\u{e9}".to_string();
    handle_event(&mut app, UiEvent::Status("done".to_string()));
    assert_eq!(app.message, "done");
    assert_eq!(app.query, "s\u{e9}");
}

#[test]
fn the_window_follows_the_selected_line() {
    let mut app = app(history(10));
    app.result_viewport_height = 4;
    app.selected = 7;
    app.ensure_selected_visible();
    assert_eq!(app.scroll_start, 4);
    app.selected = 5;
    app.ensure_selected_visible();
    assert_eq!(app.scroll_start, 4);
    app.selected = 2;
    app.ensure_selected_visible();
    assert_eq!(app.scroll_start, 2);
    app.selected = 9;
    app.scroll_start = 9;
    app.ensure_selected_visible();
    assert_eq!(app.scroll_start, 6);
    app.result_viewport_height = 0;
    app.ensure_selected_visible();
    assert_eq!(app.scroll_start, 0);
}

// Actions

#[test]
fn pages_are_opened_in_the_browser() {
    let mut app = app(history(2));
    let effect = handle_key(&mut app, InputKey::new(InputCode::Enter));
    assert_eq!(
        effect,
        Effect::Open {
            url: "https://x/0".to_string(),
            title: "Item 0".to_string(),
        }
    );
    entry_opened(&mut app, "Item 0");
    assert_eq!(app.message, "Opened Item 0");
    assert_eq!(
        handle_key(&mut app, InputKey::new(InputCode::Esc)),
        Effect::Quit
    );
    assert_eq!(
        handle_key(&mut app, InputKey::ctrl('x')),
        Effect::Nothing
    );
}

#[test]
fn refreshes_are_requested_for_the_tab() {
    let mut app = app(history(1));
    let effect = apply_action(&mut app, Action::RefreshCurrentTab);
    assert_eq!(effect, Effect::Refresh(RefreshRequest::History));
    assert_eq!(app.message, "Requested History refresh.");
    app.previous_tab();
    let effect = apply_action(&mut app, Action::RefreshCurrentTab);
    assert_eq!(effect, Effect::Nothing);
    assert_eq!(app.message, "Config tab has no refresh.");
}

#[test]
fn tags_lead_to_a_menu_and_back() {
    let mut app = on_tab(vec![image("latest,1.0,2.0")], Tab::DockerHub);
    assert_eq!(open_selected_entry(&mut app), Effect::Nothing);
    move_selection_down(&mut app);
    page_selection_down(&mut app);
    move_selection_down(&mut app);
    move_selection_up(&mut app);
    select_docker_tag(&mut app);
    assert!(matches!(&app.mode, AppMode::ActionMenu { tag: Some(tag), .. } if tag == "1.0"));
    back_to_docker_tags(&mut app);
    assert!(matches!(&app.mode, AppMode::TagList { tags, selected: 0, .. } if tags.len() == 3));
    select_docker_tag(&mut app);
    assert_eq!(
        confirm_docker_action(&mut app),
        Effect::Browse("https://hub.docker.com/r/me/app/tags?name=latest".to_string())
    );
    assert_eq!(app.message, "Opened me/app:latest in browser");
    assert!(matches!(app.mode, AppMode::Normal));
}

#[test]
fn docker_commands_are_copied() {
    let mut app = on_tab(vec![image("")], Tab::DockerHub);
    open_selected_entry(&mut app);
    move_selection_down(&mut app);
    assert_eq!(
        confirm_docker_action(&mut app),
        Effect::Copy("docker pull me/app".to_string())
    );
    assert_eq!(app.message, "Copied: docker pull me/app");
    open_selected_entry(&mut app);
    back_to_docker_tags(&mut app);
    assert!(matches!(app.mode, AppMode::Normal));
    assert_eq!(
        docker_action_labels(),
        vec!["Open in browser", "Copy docker pull command"]
    );
}

#[test]
fn repository_addresses_are_copied() {
    let act = |source: &str, tab: Tab, steps: usize| {
        let mut app = on_tab(vec![repo(source)], tab);
        open_selected_entry(&mut app);
        for _ in 0..steps {
            move_selection_down(&mut app);
        }
        let effect = confirm_repo_action(&mut app);
        (effect, app.message)
    };
    assert_eq!(
        act("github", Tab::GitHub, 0).0,
        Effect::Open {
            url: "https://host.example/me/repo".to_string(),
            title: "me/repo".to_string(),
        }
    );
    assert_eq!(
        act("github", Tab::GitHub, 1),
        (
            Effect::Copy("https://host.example/me/repo".to_string()),
            "Copied HTTPS: https://host.example/me/repo".to_string()
        )
    );
    assert_eq!(
        act("gitlab", Tab::GitLab, 9),
        (
            Effect::Copy("https://host.example/me/repo".to_string()),
            "Copied HTTPS: https://host.example/me/repo".to_string()
        )
    );
    let lines = vec!["Open in browser", "Copy repository address"];
    assert_eq!(repo_action_labels("github"), lines);
    assert_eq!(repo_action_labels("gitlab"), lines);
}

#[test]
fn ssh_addresses_are_made_of_pages() {
    assert_eq!(
        repo_ssh_url("https://github.com/me/repo/"),
        Some("git@github.com:me/repo.git".to_string())
    );
    assert_eq!(
        repo_ssh_url("https://github.com/me/repo.git"),
        Some("git@github.com:me/repo.git".to_string())
    );
    assert_eq!(repo_ssh_url("http://github.com/me/repo"), None);
    assert_eq!(repo_ssh_url("https://github.com"), None);
}

// Settings

#[test]
fn settings_are_edited_and_shared() {
    let mut app = app(Vec::new());
    select_setting(&mut app, "GitHub", "Interval");
    assert_eq!(start_config_edit(&mut app), Effect::Nothing);
    assert!(matches!(&app.mode, AppMode::ConfigEdit { buffer, .. } if buffer == "1min"));
    assert_eq!(commit_config_edit(&mut app), Effect::Nothing);
    assert_eq!(app.message, "Invalid GitHub refresh interval.");
    assert_eq!(app.config.github_refresh_interval, 60);
    for _ in 0..4 {
        app.pop_config_edit_char();
    }
    type_text(&mut app, " 90s ");
    let effect = commit_config_edit(&mut app);
    assert_eq!(
        effect,
        Effect::ShareConfig {
            label: "GitHub / Refresh / Interval".to_string(),
            editing: true,
        }
    );
    assert_eq!(app.config.github_refresh_interval, 90);
    config_shared(&mut app, "GitHub / Refresh / Interval", true);
    assert_eq!(app.message, "Updated GitHub / Refresh / Interval.");
    assert!(matches!(app.mode, AppMode::Normal));
}

#[test]
fn tokens_are_taken_and_not_shown() {
    let mut app = app(Vec::new());
    select_setting(&mut app, "GitLab", "Token");
    start_config_edit(&mut app);
    assert_eq!(
        app.message,
        "Enter a token value; it will only be shown as present."
    );
    type_text(&mut app, "abc");
    commit_config_edit(&mut app);
    assert!(matches!(app.mode, AppMode::ConfigEdit { .. }));
    assert_eq!(app.config.gitlab_token.as_deref(), Some("abc"));
    cancel_config_edit(&mut app);
    assert_eq!(app.message, "Config edit cancelled.");
    assert!(app.config_items.iter().all(|item| !item.haystack.contains("abc")));
}

#[test]
fn a_query_that_cannot_be_matched_is_taken_back() {
    let mut app = app(vec![Entry::new("\u{17f} x s \u{e9}", "https://one", "history", "")]);
    app.query = "s\u{e9}".to_string();
    app.keep_searchable("s");
    assert_eq!(app.query, "s");
    assert!(app.dirty);
    app.query = "s\u{e9}".to_string();
    app.keep_searchable("S\u{e9}");
    assert_eq!(app.query, "");
    app.query = "\u{e9}s".to_string();
    app.dirty = false;
    app.keep_searchable("\u{e9}");
    assert_eq!(app.query, "\u{e9}s");
    assert!(!app.dirty);
}

#[test]
fn headings_and_notes_are_not_edited() {
    let mut app = app(Vec::new());
    app.tab = Tab::Config;
    app.recompute();
    assert_eq!(start_config_edit(&mut app), Effect::Nothing);
    assert_eq!(app.message, "Select an indented config item to edit.");
    select_setting(&mut app, "System", "Token plan");
    start_config_edit(&mut app);
    assert_eq!(app.message, "This config item is informational.");
}

#[test]
fn toggles_are_shared_at_once() {
    let mut app = app(Vec::new());
    select_setting(&mut app, "System", "Preview pane");
    let effect = handle_key(&mut app, InputKey::new(InputCode::Enter));
    assert_eq!(
        effect,
        Effect::ShareConfig {
            label: "System / Display / Preview pane".to_string(),
            editing: false,
        }
    );
    assert!(app.config.preview_enabled);
    config_shared(&mut app, "System / Display / Preview pane", false);
    assert_eq!(app.message, "Updated System / Display / Preview pane.");
}

#[test]
fn intervals_are_shown_in_minutes_where_they_can_be() {
    assert_eq!(format_duration(59), "59s");
    assert_eq!(format_duration(60), "1min");
    assert_eq!(format_duration(90), "90s");
    assert_eq!(format_duration(600), "10min");
    assert_eq!(format_duration(0), "0s");
}

#[test]
fn secrets_are_not_shown() {
    let mut config = Config::default();
    let missing = build_config_items(&config);
    config.github_token = Some("one".to_string());
    let one = build_config_items(&config);
    config.github_token = Some("two".to_string());
    let two = build_config_items(&config);
    let shown = |items: &Vec<uf::config_items::ConfigItem>| -> Vec<(String, String)> {
        items.iter().map(|i| (i.current.clone(), i.haystack.clone())).collect()
    };
    assert_eq!(shown(&one), shown(&two));
    assert_ne!(shown(&one), shown(&missing));
    assert_eq!(one[4].current, "present");
    assert_eq!(missing[4].current, "missing");
    assert!(matches!(one[4].edit_kind, ConfigEditKind::Secret));
    assert_eq!(one.len(), 18);
}

#[test]
fn all_settings_are_shown_once() {
    let app = app(Vec::new());
    let rows = config_display_rows(&app.config_items, "");
    let mut items: Vec<usize> = rows
        .iter()
        .filter_map(|row| match row {
            ConfigDisplayRow::Item(i) => Some(*i),
            ConfigDisplayRow::Group(_) => None,
        })
        .collect();
    items.sort();
    assert_eq!(items, (0..18).collect::<Vec<usize>>());
    let groups: Vec<String> = rows
        .into_iter()
        .filter_map(|row| match row {
            ConfigDisplayRow::Group(g) => Some(g),
            ConfigDisplayRow::Item(_) => None,
        })
        .collect();
    assert_eq!(groups, vec!["Browser", "GitHub", "GitLab", "DockerHub", "System"]);
}
