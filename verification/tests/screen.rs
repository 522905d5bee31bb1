use uf::actions::{open_selected_entry, start_config_edit};
use uf::config::{Config, RuntimeConfig};
use uf::models::Entry;
use uf::screen::{
    config_editor, cursor_column, editor_place, entry_detail, footer, preview_lines, result_columns,
    result_count, results_screen, screen_body, search_cursor, setting_columns, settings_screen,
    source_color, tab_label_for, tag_window, Body, Ink, Results, SettingRow, Settings,
};
use uf::state::AppState;
use uf::tabs::Tab;

fn app(entries: Vec<Entry>) -> AppState {
    let config = Config::default();
    let runtime_config = RuntimeConfig::new(&config);
    AppState::new(entries, config, runtime_config)
}

fn history(count: usize) -> Vec<Entry> {
    (0..count)
        .map(|i| Entry::new(&format!("Item {i}"), &format!("https://x/{i}"), "history", "d"))
        .collect()
}

#[test]
fn results_fill_their_window() {
    let mut app = app(history(5));
    app.page_down();
    match results_screen(&mut app, 30, 5) {
        Results::Rows(rows, selected) => {
            assert_eq!(rows.len(), 3);
            assert_eq!(selected, 2);
            assert_eq!(rows[0].name, "Item 2    ");
            assert_eq!(rows[0].kind, "history       ");
            assert_eq!(rows[0].ink, Ink::Green);
            assert_eq!(rows[0].detail, None);
            assert!(!rows[0].odd);
            assert!(rows[1].odd);
        }
        other => panic!("{other:?}"),
    }
    assert_eq!(app.result_viewport_height, 3);
    assert_eq!(result_count(&app), "5 results");
}

#[test]
fn missing_results_are_explained() {
    let mut none = app(Vec::new());
    assert_eq!(
        results_screen(&mut none, 80, 20),
        Results::Unloaded("No entries loaded. Check browser data, GitHub/GitLab credentials, or network access.")
    );
    let mut some = app(history(2));
    some.query = "zzz".to_string();
    some.recompute();
    assert_eq!(results_screen(&mut some, 80, 20), Results::Note("No matches."));
    some.query = String::new();
    some.next_tab();
    assert_eq!(results_screen(&mut some, 80, 20), Results::Note("Type to search."));
}

#[test]
fn columns_share_the_width() {
    assert_eq!(result_columns(Tab::History, 80), (60, 0));
    assert_eq!(result_columns(Tab::GitHub, 10), (0, 0));
    assert_eq!(result_columns(Tab::Config, 100), (40, 38));
    assert_eq!(setting_columns(100), (14, 16, 14, 48));
    assert_eq!(setting_columns(10), (12, 10, 9, 0));
    assert_eq!(setting_columns(300), (18, 18, 18, 238));
}

#[test]
fn the_cursor_stays_in_the_search_line() {
    assert_eq!(cursor_column(0, 80, 5), 6);
    assert_eq!(cursor_column(0, 10, 50), 9);
    assert_eq!(cursor_column(65535, 80, 5), 65535);
    let mut app = app(Vec::new());
    app.push_char('中');
    assert_eq!(search_cursor(&app, 2, 80), 5);
}

#[test]
fn labels_tell_how_many_entries_there_are() {
    let label = tab_label_for(Tab::History, &history(3));
    assert_eq!(label.name, "History");
    assert_eq!(label.count, "(3)");
    assert_eq!(label.ink, Ink::Green);
    let label = tab_label_for(Tab::Config, &history(3));
    assert_eq!(label.count, "(0)");
    assert_eq!(source_color("github"), Ink::Magenta);
    assert_eq!(source_color("private"), Ink::Red);
    assert_eq!(source_color("other"), Ink::Green);
}

#[test]
fn the_preview_hides_tags() {
    let entry = Entry::new("me/app", "https://u", "public", "small\nWEB_FZF_TAGS\t1,2");
    assert_eq!(entry_detail(&entry), "small");
    let mut app = app(vec![entry]);
    assert!(preview_lines(&app).is_empty());
    app.tab = Tab::DockerHub;
    app.recompute();
    let lines = preview_lines(&app);
    assert_eq!(lines[0].label, "Title");
    assert_eq!(lines[2].ink, Ink::Cyan);
    assert_eq!(lines[3].value, "small");
}

#[test]
fn the_footer_cuts_the_help_first() {
    let app = app(history(1));
    let (message, help) = footer(&app, 200);
    assert_eq!(message, "Type to search.");
    assert_eq!(
        help,
        "Enter=open  Ctrl+U/D=page  Ctrl+R=refresh tab  Ctrl+B=toggle Config  Esc=quit"
    );
    let (message, help) = footer(&app, 30);
    assert_eq!(message, "Type to search.");
    assert_eq!(help, "Enter=open…");
    assert_eq!(footer(&app, 10).0, "Type to…");
}

#[test]
fn the_selected_tag_is_shown() {
    let tags: Vec<String> = (0..20).map(|i| i.to_string()).collect();
    let (shown, selected) = tag_window(&tags, 12, 10);
    assert_eq!(shown.len(), 8);
    assert_eq!(shown[selected], "12");
    let (shown, selected) = tag_window(&tags, 19, 10);
    assert_eq!(shown[selected], "19");
    assert_eq!(shown[0], "12");
    assert_eq!(tag_window(&tags, 0, 40).0.len(), 20);
}

#[test]
fn the_middle_follows_the_mode() {
    let mut app = app(vec![
        Entry::new("me/app", "https://u", "public", "d\nWEB_FZF_TAGS\t1,2"),
        Entry::new("me/repo", "https://v", "gitlab", "d"),
    ]);
    assert!(matches!(screen_body(&app), Body::Results));
    app.config.preview_enabled = true;
    assert!(matches!(screen_body(&app), Body::ResultsAndPreview));
    app.tab = Tab::DockerHub;
    app.recompute();
    open_selected_entry(&mut app);
    assert!(matches!(screen_body(&app), Body::Tags { repo, tags, selected: 0 }
        if repo == "me/app" && tags.len() == 2));
    uf::actions::select_docker_tag(&mut app);
    assert!(matches!(screen_body(&app), Body::Menu { title, labels, selected: 0 }
        if title == "Action: me/app:1" && labels.len() == 2));
    app.mode = uf::state::AppMode::Normal;
    app.tab = Tab::GitLab;
    app.recompute();
    open_selected_entry(&mut app);
    assert!(matches!(screen_body(&app), Body::Menu { title, labels, .. }
        if title == "Action: me/repo" && labels.len() == 2));
    app.previous_tab();
    assert!(matches!(screen_body(&app), Body::Blank));
    app.mode = uf::state::AppMode::Normal;
    app.tab = Tab::Config;
    app.recompute();
    assert!(matches!(screen_body(&app), Body::Config));
}

#[test]
fn settings_are_shown_in_groups() {
    let mut app = app(Vec::new());
    app.tab = Tab::Config;
    app.recompute();
    match settings_screen(&app, 100, 6) {
        Settings::Rows(rows, selected) => {
            assert_eq!(selected, 0);
            assert_eq!(rows.len(), 4);
            assert_eq!(
                rows[0],
                SettingRow::Heading {
                    text: "▼ Browser     ".to_string(),
                    note: "contains configurable items",
                    odd: false,
                }
            );
            match &rows[1] {
                SettingRow::Setting { group, name, value, detail, odd } => {
                    assert!(*odd);
                    assert_eq!(group, "    Source    ");
                    assert_eq!(name, "Enabled         ");
                    assert_eq!(value, "enabled       ");
                    assert_eq!(detail, "Local browser history and bookmarks. Safari on …");
                }
                other => panic!("{other:?}"),
            }
        }
        other => panic!("{other:?}"),
    }
    app.selected = 22;
    match settings_screen(&app, 100, 6) {
        Settings::Rows(rows, selected) => {
            let shades: Vec<bool> = rows
                .iter()
                .map(|row| match row {
                    SettingRow::Heading { odd, .. } | SettingRow::Setting { odd, .. } => *odd,
                })
                .collect();
            assert_eq!(shades, vec![false, true, false, true]);
            assert_eq!(selected, 3);
        }
        other => panic!("{other:?}"),
    }
    app.query = "zzzz".to_string();
    assert_eq!(
        settings_screen(&app, 100, 6),
        Settings::Note("No matching config items.")
    );
}

#[test]
fn secrets_are_masked_in_the_editor() {
    let mut app = app(Vec::new());
    app.tab = Tab::Config;
    app.query = "github token".to_string();
    app.recompute();
    app.selected = 1;
    assert!(config_editor(&app).is_none());
    start_config_edit(&mut app);
    app.push_config_edit_char('a');
    app.push_config_edit_char('中');
    let editor = config_editor(&app).unwrap();
    assert_eq!(editor.path, "GitHub / Auth / Token");
    assert_eq!(editor.value, "**");
    assert_eq!(editor_place(0, 0, 120, 40), (15, 16, 90, 7));
    assert_eq!(editor_place(1, 1, 20, 5), (1, 1, 40, 7));
}
