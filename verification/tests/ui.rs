use uf::actions::{
    commit_config_edit, config_shared, open_selected_entry, start_config_edit, Effect,
};
use uf::config::{Config, RuntimeConfig};
use uf::config_rows::{config_display_rows, ranked_config_items, ConfigDisplayRow};
use uf::input::{parse_next_input_key, InputCode, InputKey};
use uf::keymap::{resolve_action, Action, AppModeKind};
use uf::layout::display_width;
use uf::models::Entry;
use uf::rank::{best_entry, entry_haystacks, rank_entries};
use uf::state::{AppMode, AppState};
use uf::tabs::{tab_count, Tab};

fn app_state(entries: Vec<Entry>) -> AppState {
    let config = Config::default();
    let runtime_config = RuntimeConfig::new(&config);
    AppState::new(entries, config, runtime_config)
}

fn share(app: &mut AppState, effect: Effect) {
    match effect {
        Effect::ShareConfig { label, editing } => config_shared(app, &label, editing),
        _ => {}
    }
}

#[test]
fn best_entry_prefers_stronger_match() {
    let entries = vec![
        Entry::new("GitHub Home", "https://github.com", "github", ""),
        Entry::new("GitLab Docs", "https://docs.gitlab.com", "gitlab", ""),
    ];
    let best = best_entry(&entries, "gh").unwrap();
    assert_eq!(best.url, "https://github.com");
}

#[test]
fn best_entry_prefers_tighter_match() {
    let entries = vec![
        Entry::new("GitHub Home", "https://github.com", "github", ""),
        Entry::new("GitLab Docs", "https://docs.gitlab.com", "gitlab", ""),
    ];

    let best = best_entry(&entries, "gh").unwrap();
    assert_eq!(best.url, "https://github.com");
}

#[test]
fn history_tab_filters_to_browser_entries() {
    let entries = vec![
        Entry::new("Example", "https://example.com", "history", ""),
        Entry::new("Repo", "https://github.com/me/repo", "github", ""),
    ];
    let haystacks = entry_haystacks(&entries);
    let ranked = rank_entries(&entries, &haystacks, "", Tab::History);
    assert_eq!(ranked.len(), 1);
    assert_eq!(ranked[0].1, 0);
}

#[test]
fn dockerhub_tab_count_includes_public_and_private_entries() {
    let entries = vec![
        Entry::new(
            "me/public",
            "https://hub.docker.com/r/me/public",
            "public",
            "",
        ),
        Entry::new(
            "me/private",
            "https://hub.docker.com/r/me/private",
            "private",
            "",
        ),
        Entry::new("Repo", "https://github.com/me/repo", "github", ""),
    ];

    assert_eq!(tab_count(&entries, Tab::DockerHub), 2);
}

#[test]
fn dockerhub_entry_without_tags_opens_action_menu() {
    let mut app = app_state(vec![Entry::new(
        "juhaoming/ubuntu-dev",
        "https://hub.docker.com/r/juhaoming/ubuntu-dev",
        "public",
        "Ubuntu dev image",
    )]);
    app.tab = Tab::DockerHub;
    app.recompute();

    assert_eq!(open_selected_entry(&mut app), Effect::Nothing);

    match app.mode {
        AppMode::ActionMenu {
            ref repo,
            ref tag,
            ref tags,
            selected,
        } => {
            assert_eq!(repo, "juhaoming/ubuntu-dev");
            assert_eq!(tag, &None);
            assert!(tags.is_empty());
            assert_eq!(selected, 0);
        }
        _ => panic!("expected action menu for dockerhub entry without tags"),
    }
}

#[test]
fn github_entry_opens_action_menu() {
    let mut app = app_state(vec![Entry::new(
        "juhaoming/web-fzf",
        "https://github.com/juhaoming/web-fzf",
        "github",
        "terminal search launcher",
    )]);
    app.tab = Tab::GitHub;
    app.recompute();

    assert_eq!(open_selected_entry(&mut app), Effect::Nothing);

    match app.mode {
        AppMode::RepoMenu { selected } => {
            assert_eq!(selected, 0);
        }
        _ => panic!("expected repository action menu"),
    }
}

#[test]
fn gitlab_entry_opens_action_menu() {
    let mut app = app_state(vec![Entry::new(
        "platform/psd/auto-server/parking_fusion",
        "https://gitlab.example.com/platform/psd/auto-server/parking_fusion",
        "gitlab",
        "freespace fusion and parking static fusion merge process",
    )]);
    app.tab = Tab::GitLab;
    app.recompute();

    assert_eq!(open_selected_entry(&mut app), Effect::Nothing);

    match app.mode {
        AppMode::RepoMenu { selected } => {
            assert_eq!(selected, 0);
        }
        _ => panic!("expected repository action menu"),
    }
}

#[test]
fn result_selection_scrolls_only_at_viewport_edges() {
    let entries: Vec<Entry> = (0..8)
        .map(|idx| {
            Entry::new(
                &format!("Item {idx}"),
                &format!("https://example.com/{idx}"),
                "history",
                "",
            )
        })
        .collect();
    let mut app = app_state(entries);
    app.set_result_viewport_height(3);

    assert_eq!(app.selected, 0);
    assert_eq!(app.scroll_start, 0);
    assert_eq!(app.selected_in_window(), 0);

    app.move_down();
    assert_eq!(app.selected_in_window(), 1);
    assert_eq!(app.scroll_start, 0);

    app.move_down();
    assert_eq!(app.selected_in_window(), 2);
    assert_eq!(app.scroll_start, 0);

    app.move_down();
    assert_eq!(app.selected_in_window(), 2);
    assert_eq!(app.scroll_start, 1);

    app.move_up();
    assert_eq!(app.selected_in_window(), 1);
    assert_eq!(app.scroll_start, 1);

    app.move_up();
    assert_eq!(app.selected_in_window(), 0);
    assert_eq!(app.scroll_start, 1);

    app.move_up();
    assert_eq!(app.selected_in_window(), 0);
    assert_eq!(app.scroll_start, 0);
}

#[test]
fn chinese_input_uses_display_width_and_backspace_removes_whole_grapheme() {
    assert_eq!(display_width("中文"), 4);
    let mut app = app_state(Vec::new());
    app.push_char('中');
    app.push_char('文');
    assert_eq!(app.query, "中文");
    app.backspace();
    assert_eq!(app.query, "中");
}

#[test]
fn raw_input_distinguishes_enter_from_ctrl_j() {
    let mut enter = b"\r".to_vec();
    assert_eq!(
        parse_next_input_key(&mut enter),
        Some(InputKey::new(InputCode::Enter))
    );

    let mut ctrl_j = b"\n".to_vec();
    assert_eq!(parse_next_input_key(&mut ctrl_j), Some(InputKey::ctrl('j')));
}

#[test]
fn raw_input_parses_arrows_and_utf8_text() {
    let mut down = b"\x1B[B".to_vec();
    assert_eq!(
        parse_next_input_key(&mut down),
        Some(InputKey::new(InputCode::Down))
    );

    let mut text = "中".as_bytes().to_vec();
    assert_eq!(
        parse_next_input_key(&mut text),
        Some(InputKey::new(InputCode::Char('中')))
    );
}

#[test]
fn normal_keymap_distinguishes_enter_from_ctrl_j() {
    assert_eq!(
        resolve_action(AppModeKind::Normal, InputKey::new(InputCode::Enter)),
        Some(Action::OpenSelected)
    );
    assert_eq!(
        resolve_action(AppModeKind::Normal, InputKey::ctrl('j')),
        Some(Action::MoveDown)
    );
    assert_eq!(
        resolve_action(AppModeKind::Normal, InputKey::ctrl('b')),
        Some(Action::ToggleConfigTab)
    );
}

#[test]
fn modal_keymaps_keep_enter_mode_specific() {
    assert_eq!(
        resolve_action(AppModeKind::TagList, InputKey::new(InputCode::Enter)),
        Some(Action::SelectTag)
    );
    assert_eq!(
        resolve_action(AppModeKind::ActionMenu, InputKey::new(InputCode::Enter)),
        Some(Action::ConfirmDockerAction)
    );
    assert_eq!(
        resolve_action(AppModeKind::RepoMenu, InputKey::new(InputCode::Enter)),
        Some(Action::ConfirmRepoAction)
    );
    assert_eq!(
        resolve_action(AppModeKind::RepoMenu, InputKey::new(InputCode::Backspace)),
        Some(Action::BackToNormal)
    );
}

#[test]
fn ctrl_n_and_ctrl_p_move_in_modal_modes() {
    for mode in [AppModeKind::TagList, AppModeKind::ActionMenu] {
        assert_eq!(
            resolve_action(mode, InputKey::ctrl('n')),
            Some(Action::MoveDown)
        );
        assert_eq!(
            resolve_action(mode, InputKey::ctrl('p')),
            Some(Action::MoveUp)
        );
    }
}

#[test]
fn ctrl_u_and_ctrl_d_page_in_all_modes() {
    for mode in [
        AppModeKind::Normal,
        AppModeKind::TagList,
        AppModeKind::ActionMenu,
    ] {
        assert_eq!(
            resolve_action(mode, InputKey::ctrl('u')),
            Some(Action::PageUp)
        );
        assert_eq!(
            resolve_action(mode, InputKey::ctrl('d')),
            Some(Action::PageDown)
        );
    }
}

#[test]
fn backspace_goes_back_only_in_modal_modes() {
    assert_eq!(
        resolve_action(AppModeKind::Normal, InputKey::new(InputCode::Backspace)),
        Some(Action::Backspace)
    );
    assert_eq!(
        resolve_action(AppModeKind::TagList, InputKey::new(InputCode::Backspace)),
        Some(Action::BackToNormal)
    );
    assert_eq!(
        resolve_action(AppModeKind::ActionMenu, InputKey::new(InputCode::Backspace)),
        Some(Action::BackToTags)
    );
}

#[test]
fn config_tab_is_visible_by_default_and_can_be_toggled() {
    let mut app = app_state(Vec::new());
    assert_eq!(
        app.visible_tabs(),
        vec![
            Tab::History,
            Tab::GitHub,
            Tab::GitLab,
            Tab::DockerHub,
            Tab::Config,
        ]
    );
    assert_eq!(app.tab, Tab::History);

    app.toggle_config_tab();
    assert_eq!(
        app.visible_tabs(),
        vec![Tab::History, Tab::GitHub, Tab::GitLab, Tab::DockerHub]
    );
    assert_eq!(app.tab, Tab::History);

    app.toggle_config_tab();
    assert_eq!(
        app.visible_tabs(),
        vec![
            Tab::History,
            Tab::GitHub,
            Tab::GitLab,
            Tab::DockerHub,
            Tab::Config,
        ]
    );
    assert_eq!(app.tab, Tab::Config);
    assert_eq!(app.selected_tab_index(), 4);
    assert!(app.visible.is_empty());
}

#[test]
fn config_items_are_searchable() {
    let app = app_state(Vec::new());
    let rows = ranked_config_items(&app.config_items, "github token");
    assert!(!rows.is_empty());
    assert_eq!(app.config_items[rows[0]].level1, "GitHub");
    assert_eq!(app.config_items[rows[0]].level2, "Auth");
    assert_eq!(app.config_items[rows[0]].level3, "Token");
}

#[test]
fn config_items_use_source_grouped_hierarchy() {
    let app = app_state(Vec::new());
    assert!(app.config_items.iter().any(|item| {
        item.level1 == "DockerHub" && item.level2 == "Auth" && item.level3 == "Username"
    }));
    assert!(app.config_items.iter().any(|item| {
        item.level1 == "Browser" && item.level2 == "Refresh" && item.level3 == "Interval"
    }));
    assert!(app.config_items.iter().any(|item| {
        item.level1 == "GitHub" && item.level2 == "Source" && item.level3 == "Enabled"
    }));
}

#[test]
fn config_display_rows_include_expanded_function_headers() {
    let app = app_state(Vec::new());
    let rows = config_display_rows(&app.config_items, "github token");
    assert!(matches!(
        rows.first(),
        Some(ConfigDisplayRow::Group(group)) if group == "GitHub"
    ));
    assert!(matches!(rows.get(1), Some(ConfigDisplayRow::Item(_))));
}

#[test]
fn config_display_rows_group_all_items_under_source_header() {
    let app = app_state(Vec::new());
    let rows = config_display_rows(&app.config_items, "");
    let github_start = rows
        .iter()
        .position(|row| matches!(row, ConfigDisplayRow::Group(group) if group == "GitHub"))
        .unwrap();
    let next_group = rows[github_start + 1..]
        .iter()
        .position(|row| matches!(row, ConfigDisplayRow::Group(_)))
        .map(|offset| github_start + 1 + offset)
        .unwrap_or(rows.len());
    let github_settings: Vec<_> = rows[github_start + 1..next_group]
        .iter()
        .filter_map(|row| match row {
            ConfigDisplayRow::Item(idx) => Some(app.config_items[*idx].level3.as_str()),
            ConfigDisplayRow::Group(_) => None,
        })
        .collect();

    assert_eq!(
        github_settings,
        vec!["Enabled", "Token", "User", "Base URL", "Interval"]
    );
}

#[test]
fn selected_config_item_can_change_value() {
    let mut app = app_state(Vec::new());
    app.query = "browser sources".to_string();
    app.tab = Tab::Config;
    app.recompute();
    app.move_config_down();

    let effect = start_config_edit(&mut app);
    share(&mut app, effect);
    assert_eq!(
        app.config_items[app.selected_config_item_index().unwrap()].current,
        "disabled"
    );

    app.query = "github user".to_string();
    app.recompute();
    app.selected = 0;
    app.move_config_down();
    let effect = start_config_edit(&mut app);
    share(&mut app, effect);
    app.push_config_edit_char('m');
    app.push_config_edit_char('e');
    let effect = commit_config_edit(&mut app);
    share(&mut app, effect);
    let item = &app.config_items[app.selected_config_item_index().unwrap()];
    assert_eq!(item.level1, "GitHub");
    assert_eq!(item.level2, "Auth");
    assert_eq!(item.level3, "User");
    assert_eq!(item.current, "me");
}

#[test]
fn tab_navigation_includes_config_only_when_visible() {
    let mut app = app_state(Vec::new());
    app.previous_tab();
    assert_eq!(app.tab, Tab::Config);

    app.toggle_config_tab();
    app.previous_tab();
    assert_eq!(app.tab, Tab::DockerHub);

    app.toggle_config_tab();
    assert_eq!(app.tab, Tab::Config);
}

#[test]
fn disabling_source_hides_tab_and_moves_selection() {
    let mut app = app_state(Vec::new());
    app.toggle_config_tab();
    app.tab = Tab::GitHub;
    app.query = "github enabled".to_string();
    app.recompute();
    app.move_config_down();

    let effect = start_config_edit(&mut app);
    share(&mut app, effect);

    assert!(!app.runtime_config.include_github());
    assert!(!app.visible_tabs().contains(&Tab::GitHub));
    assert_eq!(app.tab, Tab::History);
}

#[test]
fn replace_entries_for_sources_updates_existing_browser_entries() {
    let mut app = app_state(vec![
        Entry::new("Old", "https://old", "history", ""),
        Entry::new("Repo", "https://github.com/me/repo", "github", ""),
    ]);
    app.replace_entries_for_sources(
        &vec!["history".to_string()],
        vec![Entry::new("New", "https://new", "history", "")],
    );
    assert!(app.entries.iter().any(|entry| entry.url == "https://new"));
    assert!(!app.entries.iter().any(|entry| entry.url == "https://old"));
    assert!(app
        .entries
        .iter()
        .any(|entry| entry.url == "https://github.com/me/repo"));
}

#[test]
fn history_tab_still_accepts_old_browser_history_source() {
    let entry = Entry::new("Old", "https://old", "browser-history", "");
    assert!(Tab::History.matches(&entry));
}
