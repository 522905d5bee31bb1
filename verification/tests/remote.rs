use uf::args::{help_text, parse_args, Invocation};
use uf::config::{Config, RuntimeConfig};
use uf::log::{debug_enabled, suppressed_debug_notice, write_debug};
use uf::models::Entry;
use uf::refresh::{
    browser_changed, history_refreshed, load_github_entries, load_gitlab_entries, startup,
    startup_rows, JobStep, Paging, RefreshRequest, RefreshState, RemoteJob,
};
use uf::repos::dockerhub_entry_tags;
use uf::requests::{
    dockerhub_page_line, fetch_dockerhub_page, fetch_dockerhub_tags, fetch_github_page,
    fetch_gitlab_page, read_dockerhub_page, test_github_connectivity, Step,
};
use uf::services::{
    parse_dockerhub_repo_entries, parse_dockerhub_tags, parse_github_entries,
    parse_gitlab_entries, Service,
};
use uf::sources::{load_entries, load_safari, Delivery, RemoteRows};

fn rows(count: usize, source: &str) -> Vec<Entry> {
    (0..count)
        .map(|i| Entry::new(&format!("t{i}"), &format!("https://{source}/{i}"), source, ""))
        .collect()
}

fn args(list: &[&str]) -> Vec<String> {
    list.iter().map(|a| a.to_string()).collect()
}

#[test]
fn github_pages_are_asked_for_with_the_token_or_for_the_user() {
    let mut config = Config::default();
    assert!(fetch_github_page(&config, 1, None).is_none());
    config.github_api = "https://ghe.example.com/api/v3//".to_string();
    config.github_user = Some("me".to_string());
    assert_eq!(
        fetch_github_page(&config, 2, None).unwrap(),
        args(&[
            "-fsSL",
            "-H",
            "Accept: application/vnd.github+json",
            "-H",
            "User-Agent: uf",
            "https://ghe.example.com/api/v3/users/me/repos?per_page=100&page=2&sort=updated&type=owner",
        ])
    );
    assert_eq!(
        fetch_github_page(&config, 1, Some("SECRET-REDACTED")).unwrap()[5..],
        args(&[
            "-H",
            "Authorization: Bearer SECRET-REDACTED",
            "https://ghe.example.com/api/v3/user/repos?per_page=100&page=1&sort=updated&affiliation=owner,collaborator,organization_member",
        ])[..]
    );
}

#[test]
fn gitlab_pages_are_public_without_a_token() {
    let mut config = Config::default();
    assert_eq!(
        fetch_gitlab_page(&config, 3),
        args(&[
            "-fsSL",
            "-H",
            "User-Agent: web-fzf",
            "https://gitlab.com/api/v4/projects?per_page=100&page=3&order_by=last_activity_at&sort=desc&visibility=public",
        ])
    );
    config.gitlab_token = Some("SECRET-REDACTED".to_string());
    let asked = fetch_gitlab_page(&config, 1);
    assert_eq!(asked[4], "PRIVATE-TOKEN: SECRET-REDACTED");
    assert!(asked[5].ends_with("&membership=true&min_access_level=20"));
}

#[test]
fn dockerhub_pages_need_a_user() {
    let mut config = Config::default();
    config.debug = true;
    let (asked, log) = fetch_dockerhub_page(&config, 1);
    assert!(asked.is_none());
    assert_eq!(log, vec!["[dockerhub] skipped: DOCKERHUB_USERNAME not set"]);
    config.dockerhub_username = Some("me".to_string());
    let (asked, log) = fetch_dockerhub_page(&config, 4);
    let url = "https://hub.docker.com/v2/repositories/me/?page_size=100&page=4&ordering=last_updated";
    assert_eq!(
        asked.unwrap(),
        args(&["-sSL", "-H", "Content-Type: application/json", url])
    );
    assert_eq!(
        log,
        vec![
            format!("[dockerhub] GET {url}"),
            "[dockerhub] token: none (public repos only)".to_string(),
        ]
    );
    config.debug = false;
    assert!(fetch_dockerhub_page(&config, 4).1.is_empty());
    assert_eq!(
        fetch_dockerhub_tags("me/app", Some("SECRET-REDACTED"))[3..],
        args(&[
            "-H",
            "Authorization: JWT SECRET-REDACTED",
            "https://hub.docker.com/v2/repositories/me/app/tags/?page_size=100&ordering=last_updated",
        ])[..]
    );
}

#[test]
fn dockerhub_answers_are_logged() {
    let (entries, log) = read_dockerhub_page(true, "");
    assert_eq!(entries, Ok(Vec::new()));
    assert_eq!(
        log,
        vec![
            "[dockerhub] curl response (0 bytes): ",
            "[dockerhub] curl returned empty body (possible auth error or network issue)",
        ]
    );
    let (entries, log) = read_dockerhub_page(true, "{\"message\": \"access denied\"}");
    assert_eq!(entries, Ok(Vec::new()));
    assert_eq!(
        log,
        vec![
            "[dockerhub] curl response (28 bytes): {\"message\": \"access denied\"}",
            "[dockerhub] API_ERROR: access denied",
            "[dockerhub] parsed 0 repository entries",
        ]
    );
    let (_, log) = read_dockerhub_page(true, "{\"detail\": \"denied\"}");
    assert_eq!(log[1], "[dockerhub] API_ERROR: denied");
    let long = format!("{{\"x\": \"{}\"}}", "a".repeat(600));
    let (_, log) = read_dockerhub_page(true, &long);
    assert_eq!(
        log[0],
        format!("[dockerhub] curl response (609 bytes): {}... (truncated)", &long[..500])
    );
    let (_, log) = read_dockerhub_page(false, &long);
    assert!(log.is_empty());
    for pad in ["", "a"] {
        let row = format!("{{\"namespace\": \"me\", \"name\": \"app\", \"description\": \"{pad}{}\"}}", "\u{e9}".repeat(400));
        let answer = format!("{{\"results\": [{row}]}}");
        let (entries, log) = read_dockerhub_page(true, &answer);
        assert_eq!(entries, read_dockerhub_page(false, &answer).0);
        assert_eq!(entries.unwrap().len(), 1);
        let end = if answer.is_char_boundary(500) { 500 } else { 499 };
        assert_eq!(
            log[0],
            format!(
                "[dockerhub] curl response ({} bytes): {}... (truncated)",
                answer.len(),
                &answer[..end]
            )
        );
    }
    assert_eq!(
        dockerhub_page_line(true, 2, 7),
        Some("[dockerhub] page 2: 7 entries".to_string())
    );
    assert_eq!(dockerhub_page_line(false, 2, 7), None);
}

#[test]
fn dockerhub_images_are_read() {
    let text = r#"{"results": [
        {"namespace": "me", "name": "app", "description": "d\te", "is_private": true},
        {"name": "bare"},
        {"namespace": "me"}
    ], "message": "slow down"}"#;
    let (entries, report) = parse_dockerhub_repo_entries(text, true);
    assert_eq!(
        entries.unwrap(),
        vec![
            Entry::new("me/app", "https://hub.docker.com/r/me/app", "private", "d e"),
            Entry::new("bare", "https://hub.docker.com/r/bare", "public", ""),
        ]
    );
    assert_eq!(report, Some("[dockerhub] API_ERROR: slow down".to_string()));
    assert_eq!(parse_dockerhub_repo_entries(text, false).1, None);
    assert_eq!(parse_dockerhub_repo_entries(" ", true).0, Ok(Vec::new()));
    assert!(parse_dockerhub_repo_entries("x", true)
        .0
        .unwrap_err()
        .starts_with("parse DockerHub JSON: "));
}

#[test]
fn dockerhub_tags_are_read() {
    let text = r#"{"results": [{"name": "latest"}, {"name": ""}, {}, {"name": "1.0"}]}"#;
    assert_eq!(parse_dockerhub_tags(text), Ok(args(&["latest", "1.0"])));
    assert_eq!(parse_dockerhub_tags(""), Ok(Vec::new()));
    assert!(parse_dockerhub_tags("x")
        .unwrap_err()
        .starts_with("parse DockerHub tags JSON: "));
    let plain = Entry::new("t", "u", "public", "d\nWEB_FZF_TAGS\t a ,,b");
    assert_eq!(dockerhub_entry_tags(&plain), args(&["a", "b"]));
}

#[test]
fn repositories_fall_back_to_their_names() {
    let text = r#"[{"html_url": "https://x", "name": "n"}, {"html_url": "https://y"},
        {"html_url": ""}, {"name": "z"}, 5]"#;
    let entries = parse_github_entries(text).unwrap();
    assert_eq!(
        entries,
        vec![
            Entry::new("n", "https://x", "github", ""),
            Entry::new("https://y", "https://y", "github", ""),
        ]
    );
    assert_eq!(parse_github_entries("  "), Ok(Vec::new()));
    assert_eq!(parse_github_entries("{}"), Ok(Vec::new()));
    assert!(parse_github_entries("x").unwrap_err().starts_with("parse GitHub JSON: "));
    assert!(parse_gitlab_entries("x").unwrap_err().starts_with("parse GitLab JSON: "));
}

fn told(config: &Config, replies: &[Result<&str, &str>]) -> Result<String, String> {
    let replies = replies
        .iter()
        .map(|r| r.map(str::to_string).map_err(str::to_string))
        .collect();
    match test_github_connectivity(config, &replies) {
        Step::Done(outcome) => outcome,
        Step::Ask(asked) => panic!("{asked:?}"),
    }
}

#[test]
fn the_connection_to_github_is_tested() {
    let mut config = Config::default();
    assert_eq!(told(&config, &[]), Err("GitHub token is missing.".to_string()));
    config.github_token = Some("SECRET-REDACTED".to_string());
    match test_github_connectivity(&config, &Vec::new()) {
        Step::Ask(asked) => assert_eq!(asked[7], "https://api.github.com/user"),
        Step::Done(outcome) => panic!("{outcome:?}"),
    }
    let user = "{\"login\": \"me\"}";
    match test_github_connectivity(&config, &vec![Ok(user.to_string())]) {
        Step::Ask(asked) => assert_eq!(
            asked[7],
            "https://api.github.com/user/repos?per_page=1&page=1&sort=updated&affiliation=owner,collaborator,organization_member"
        ),
        Step::Done(outcome) => panic!("{outcome:?}"),
    }
    assert_eq!(
        told(&config, &[Ok(user), Ok("[]")]),
        Ok("Connected as me. Repository access OK.".to_string())
    );
    let failed = |replies: &[Result<&str, &str>]| told(&config, replies).unwrap_err();
    assert_eq!(failed(&[Err("no curl")]), "no curl");
    assert!(failed(&[Ok("x")]).starts_with("parse GitHub user JSON: "));
    assert_eq!(
        failed(&[Ok("{\"message\": \"Bad credentials\"}")]),
        "GitHub user check failed: Bad credentials"
    );
    assert_eq!(failed(&[Ok("{}")]), "GitHub user check failed: login not found.");
    assert_eq!(failed(&[Ok(user), Err("gone")]), "gone");
    assert!(failed(&[Ok(user), Ok("x")]).starts_with("parse GitHub repos JSON: "));
    assert_eq!(failed(&[Ok(user), Ok("{}")]), "GitHub repository check failed.");
    assert_eq!(
        failed(&[Ok(user), Ok("{\"message\": \"no\"}")]),
        "GitHub repository check failed: no"
    );
    assert_eq!(
        failed(&[Ok(user), Ok("5")]),
        "GitHub repository check returned an unexpected response."
    );
}

#[test]
fn a_refresh_ends_after_a_short_page() {
    let (mut job, message) = RemoteJob::begin(Service::DockerHub, true).unwrap();
    assert_eq!(message, "Refreshing DockerHub in background...");
    let (told, step) = job.take_page(Ok(rows(100, "public")));
    assert_eq!(
        told.unwrap(),
        "DockerHub refreshing... page 1 loaded (100 items)."
    );
    assert!(matches!(step, JobStep::Fetch(2)));
    let (told, step) = job.take_page(Ok(rows(3, "private")));
    assert_eq!(told.unwrap(), "DockerHub refreshing... page 2 loaded (3 items).");
    match step {
        JobStep::Replace { cache, sources, entries, message } => {
            assert_eq!(cache.as_deref(), Some("dockerhub"));
            assert_eq!(sources, args(&["public", "private"]));
            assert_eq!(entries.len(), 103);
            assert_eq!(message, "DockerHub refresh complete (103 items).");
        }
        other => panic!("{other:?}"),
    }
}

#[test]
fn a_refresh_keeps_the_entries_when_nothing_comes() {
    assert!(RemoteJob::begin(Service::GitHub, false).is_none());
    let (mut job, _) = RemoteJob::begin(Service::GitHub, true).unwrap();
    let (told, step) = job.take_page(Ok(Vec::new()));
    assert!(told.is_none());
    assert!(matches!(step, JobStep::Keep(m)
        if m == "GitHub refresh returned no entries; keeping existing data."));
    let (mut job, _) = RemoteJob::begin(Service::GitLab, true).unwrap();
    let (_, step) = job.take_page(Ok(rows(100, "gitlab")));
    assert!(matches!(step, JobStep::Fetch(2)));
    let (_, step) = job.take_page(Err("offline".to_string()));
    assert!(matches!(step, JobStep::Keep(m) if m == "GitLab refresh failed: offline"));
}

#[test]
fn a_refresh_stops_at_the_last_page() {
    let (mut job, _) = RemoteJob::begin(Service::GitHub, true).unwrap();
    for page in 1..20 {
        let (_, step) = job.take_page(Ok(rows(100, "github")));
        assert!(matches!(step, JobStep::Fetch(next) if next == page + 1));
    }
    let (_, step) = job.take_page(Ok(rows(100, "github")));
    assert!(matches!(step, JobStep::Replace { entries, .. } if entries.len() == 2000));
}

#[test]
fn all_pages_are_loaded_without_repeats() {
    let mut config = Config::default();
    assert!(matches!(load_github_entries(&config, &Vec::new()), Paging::Done(Ok(e)) if e.is_empty()));
    config.github_user = Some("me".to_string());
    assert!(matches!(load_github_entries(&config, &Vec::new()), Paging::Fetch(1)));
    let pages = vec![Ok(rows(100, "gitlab")), Ok(rows(50, "gitlab"))];
    assert!(matches!(load_gitlab_entries(&pages), Paging::Done(Ok(e)) if e.len() == 100));
    let pages = vec![Ok(rows(100, "gitlab")), Err("gone".to_string())];
    assert!(matches!(load_gitlab_entries(&pages), Paging::Done(Err(e)) if e == "gone"));
    let pages: Vec<_> = (0..20).map(|_| Ok(rows(100, "gitlab"))).collect();
    assert!(matches!(load_gitlab_entries(&pages), Paging::Done(Ok(_))));
}

#[test]
fn a_source_is_refreshed_once_at_a_time() {
    let switches = RuntimeConfig::new(&Config::default());
    let mut state = RefreshState::default();
    assert_eq!(state.take_request(RefreshRequest::GitHub, &switches), None);
    assert_eq!(
        state.take_request(RefreshRequest::GitHub, &switches),
        Some("GitHub is already refreshing.".to_string())
    );
    assert_eq!(state.take_request(RefreshRequest::History, &switches), None);
    state.finish(RefreshRequest::GitHub);
    assert_eq!(state.take_request(RefreshRequest::GitHub, &switches), None);
    let mut off = switches.snapshot();
    off.set_include_dockerhub(false);
    assert_eq!(
        state.take_request(RefreshRequest::DockerHub, &off),
        Some("DockerHub source is disabled.".to_string())
    );
    assert!(!state.dockerhub);
}

#[test]
fn browsers_are_refreshed_when_their_files_change() {
    let mut last = Some(1);
    assert!(!browser_changed(&mut last, Some(1)));
    assert!(!browser_changed(&mut last, None));
    assert_eq!(last, Some(1));
    assert!(browser_changed(&mut last, Some(2)));
    assert_eq!(last, Some(2));
    let mut never = None;
    assert!(browser_changed(&mut never, Some(3)));
    match history_refreshed(Ok(rows(2, "history"))) {
        JobStep::Replace { cache, sources, message, .. } => {
            assert_eq!(cache, None);
            assert_eq!(sources, args(&["history", "browser-history", "bookmark"]));
            assert_eq!(message, "Browser history refreshed (2 items).");
        }
        other => panic!("{other:?}"),
    }
    assert!(matches!(history_refreshed(Ok(Vec::new())), JobStep::Keep(m)
        if m == "Browser history refresh returned no entries; keeping existing data."));
    assert!(matches!(history_refreshed(Err("x".to_string())), JobStep::Keep(m)
        if m == "Browser history refresh failed: x"));
}

#[test]
fn the_start_shows_caches_and_refreshes_old_ones() {
    let file = "saved_at\t1\nT\thttps://t\tgithub\t\n";
    let (entries, due) = startup_rows(true, Some(file), Some(10), 60);
    assert_eq!(entries.len(), 1);
    assert!(!due);
    let off = startup_rows(false, Some(file), None, 60);
    assert!(off.0.is_empty());
    assert!(!off.1);
    let missing = startup_rows(true, None, None, 60);
    let (all, requests) = startup(rows(2, "history"), (entries, due), off, missing);
    assert_eq!(all.len(), 3);
    assert_eq!(all[2].source, "github");
    assert_eq!(requests, vec![RefreshRequest::DockerHub]);
}

#[test]
fn entries_of_all_sources_come_together() {
    let mut config = Config::default();
    let remote = |cached: usize, fetched: Result<Vec<Entry>, String>| RemoteRows {
        cached: rows(cached, "github"),
        fetched,
    };
    let (entries, reports) = load_entries(
        &config,
        Ok(rows(1, "history")),
        remote(2, Ok(rows(3, "github"))),
        remote(0, Err("offline".to_string())),
    );
    assert_eq!(entries.len(), 4);
    assert_eq!(reports, vec!["gitlab sources: offline"]);
    config.include_github = false;
    config.include_browser = false;
    let (entries, _) = load_entries(
        &config,
        Ok(rows(1, "history")),
        remote(2, Ok(Vec::new())),
        remote(0, Ok(Vec::new())),
    );
    assert!(entries.is_empty());
}

#[test]
fn safari_reports_denied_access_once() {
    let list = vec![
        Delivery {
            label: "safari bookmarks /a".to_string(),
            rows: Err("Operation not permitted (os error 1)".to_string()),
        },
        Delivery {
            label: "safari history /b".to_string(),
            rows: Err("Permission denied".to_string()),
        },
    ];
    let (entries, reports) = load_safari(&list);
    assert!(entries.is_empty());
    assert_eq!(
        reports,
        vec!["safari data unavailable: macOS denied access. Grant Full Disk Access to your terminal to include Safari bookmarks and history."]
    );
    let list = vec![Delivery {
        label: "safari history /b".to_string(),
        rows: Err("broken".to_string()),
    }];
    assert_eq!(load_safari(&list).1, vec!["safari history /b: broken"]);
}

#[test]
fn the_command_line_changes_the_configuration() {
    let given = args(&[
        "--no-github",
        "--debug",
        "--gitlab-api",
        "https://gl",
        "--github-user",
        "me",
        "--dockerhub-token",
    ]);
    let mut config = Config::default();
    config.dockerhub_token = Some("SECRET-REDACTED".to_string());
    match parse_args(config, &given).unwrap() {
        Invocation::Run(config) => {
            assert!(!config.include_github);
            assert!(config.include_gitlab);
            assert!(config.debug);
            assert_eq!(config.gitlab_api, "https://gl");
            assert_eq!(config.github_user.as_deref(), Some("me"));
            assert_eq!(config.dockerhub_token, None);
        }
        Invocation::Help => panic!("expected a run"),
    }
    let help = parse_args(Config::default(), &args(&["--no-browser", "-h", "--bad"]));
    assert!(matches!(help, Ok(Invocation::Help)));
    assert!(help_text().starts_with("uf\n\nUsage: uf [options]\n"));
    let reason = |list: &[&str]| parse_args(Config::default(), &args(list)).unwrap_err();
    assert_eq!(reason(&["--github-api"]), "--github-api requires a value");
    assert_eq!(reason(&["--gitlab-api"]), "--gitlab-api requires a value");
    assert_eq!(reason(&["--bad"]), "unknown argument: --bad");
}

#[test]
fn debugging_output_stays_off_the_screen() {
    let mut config = Config::default();
    assert!(!debug_enabled(&config, true));
    assert_eq!(suppressed_debug_notice(&config, false), None);
    config.debug = true;
    assert!(debug_enabled(&config, true));
    assert_eq!(write_debug(&config, true, "m"), Some("m"));
    assert_eq!(write_debug(&config, false, "m"), None);
    assert!(suppressed_debug_notice(&config, false).is_some());
    assert_eq!(suppressed_debug_notice(&config, true), None);
}
