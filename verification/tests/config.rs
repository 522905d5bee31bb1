use std::time::Duration;
use uf::config::{
    apply_json_overrides, format_persisted_config, normalize_gitlab_api_url, parse_preview_flag,
    parse_refresh_interval, Config, Environment, Language, RuntimeConfig,
};
use uf::json::{parse_json, Json};

fn interval(text: &str) -> Option<Duration> {
    parse_refresh_interval(text).map(Duration::from_secs)
}

fn no_environment() -> Environment {
    Environment {
        github_token: None,
        gitlab_token: None,
        github_api: None,
        gitlab_api: None,
        github_user: None,
        dockerhub_token: None,
        dockerhub_username: None,
        history_refresh: None,
        github_refresh: None,
        gitlab_refresh: None,
        dockerhub_refresh: None,
        preview: None,
    }
}

#[test]
fn parses_refresh_interval_with_units() {
    assert_eq!(interval("5s"), Some(Duration::from_secs(5)));
    assert_eq!(interval("90"), Some(Duration::from_secs(90)));
    assert_eq!(interval("60sec"), Some(Duration::from_secs(60)));
}

#[test]
fn rejects_empty_zero_or_minute_refresh_interval() {
    assert_eq!(interval(""), None);
    assert_eq!(interval("0s"), None);
    assert_eq!(interval("1min"), None);
}

#[test]
fn persisted_config_round_trips() {
    let mut config = Config::default();
    config.include_github = false;
    config.github_user = Some("octocat".to_string());
    config.preview_enabled = true;
    config.github_refresh_interval = 90;
    config.language = Language::Japanese;

    let text = format_persisted_config(&config);
    let value: Json = parse_json(&text).unwrap();
    let mut loaded = Config::default();
    apply_json_overrides(&mut loaded, &value);

    assert!(!loaded.include_github);
    assert_eq!(loaded.github_user.as_deref(), Some("octocat"));
    assert!(loaded.preview_enabled);
    assert_eq!(
        Duration::from_secs(loaded.github_refresh_interval),
        Duration::from_secs(90)
    );
    assert_eq!(loaded.language, Language::Japanese);
}

#[test]
fn language_defaults_to_english() {
    let config = Config::default();
    assert_eq!(config.language, Language::English);
}

#[test]
fn invalid_language_keeps_default_english() {
    let value = Json::Object(vec![(
        "language".to_string(),
        Json::Text("invalid-language".to_string()),
    )]);
    let mut loaded = Config::default();
    apply_json_overrides(&mut loaded, &value);
    assert_eq!(loaded.language, Language::English);
}

#[test]
fn normalizes_gitlab_base_and_api_urls() {
    assert_eq!(
        normalize_gitlab_api_url("https://gitlab.example.com"),
        "https://gitlab.example.com/api/v4"
    );
    assert_eq!(
        normalize_gitlab_api_url("https://gitlab.example.com/"),
        "https://gitlab.example.com/api/v4"
    );
    assert_eq!(
        normalize_gitlab_api_url("https://gitlab.example.com/api/v4"),
        "https://gitlab.example.com/api/v4"
    );
    assert_eq!(
        normalize_gitlab_api_url("https://gitlab.example.com/api/v4/"),
        "https://gitlab.example.com/api/v4"
    );
}

#[test]
fn defaults_of_the_configuration() {
    let config = Config::default();
    assert!(config.include_browser);
    assert!(config.include_github);
    assert!(config.include_gitlab);
    assert!(config.include_dockerhub);
    assert_eq!(config.github_api, "https://api.github.com");
    assert_eq!(config.gitlab_api, "https://gitlab.com/api/v4");
    assert_eq!(config.history_refresh_interval, 5);
    assert_eq!(config.github_refresh_interval, 60);
    assert_eq!(config.gitlab_refresh_interval, 60);
    assert_eq!(config.dockerhub_refresh_interval, 60);
    assert_eq!(config.github_token, None);
    assert!(!config.preview_enabled);
    assert!(!config.debug);
}

#[test]
fn every_stored_field_comes_back() {
    let config = Config {
        include_browser: false,
        include_github: true,
        include_gitlab: false,
        include_dockerhub: true,
        github_token: Some("SECRET-REDACTED".to_string()),
        gitlab_token: None,
        github_api: "https://ghe.example.com/\"api\"".to_string(),
        gitlab_api: "https://gitlab.example.com/api/v4".to_string(),
        github_user: Some("名前\n".to_string()),
        dockerhub_token: None,
        dockerhub_username: Some("me".to_string()),
        history_refresh_interval: 7,
        github_refresh_interval: 120,
        gitlab_refresh_interval: u64::MAX,
        dockerhub_refresh_interval: 1,
        preview_enabled: true,
        debug: true,
        language: Language::Russian,
    };
    let mut loaded = Config::default();
    loaded.apply_file_overrides(&format_persisted_config(&config));
    assert_eq!(loaded.include_browser, false);
    assert_eq!(loaded.include_github, true);
    assert_eq!(loaded.include_gitlab, false);
    assert_eq!(loaded.include_dockerhub, true);
    assert_eq!(loaded.github_token, config.github_token);
    assert_eq!(loaded.gitlab_token, None);
    assert_eq!(loaded.github_api, config.github_api);
    assert_eq!(loaded.gitlab_api, config.gitlab_api);
    assert_eq!(loaded.github_user, config.github_user);
    assert_eq!(loaded.dockerhub_token, None);
    assert_eq!(loaded.dockerhub_username, config.dockerhub_username);
    assert_eq!(loaded.history_refresh_interval, 7);
    assert_eq!(loaded.github_refresh_interval, 120);
    assert_eq!(loaded.gitlab_refresh_interval, u64::MAX);
    assert_eq!(loaded.dockerhub_refresh_interval, 1);
    assert_eq!(loaded.preview_enabled, true);
    assert_eq!(loaded.language, Language::Russian);
    assert_eq!(loaded.debug, true);
}

#[test]
fn stored_text_names_its_fields() {
    let mut config = Config::default();
    config.github_refresh_interval = 90;
    let text = format_persisted_config(&config);
    let value = parse_json(&text).unwrap();
    assert_eq!(value.bool_at("include_browser"), Some(true));
    assert_eq!(value.number_at("github_refresh_interval"), Some(90));
    assert_eq!(value.get("github_token"), Some(&Json::Null));
    assert_eq!(value.text_at("language"), Some(&"en".to_string()));
    assert_eq!(value.bool_at("debug"), Some(false));
    assert_eq!(value.get("nothing"), None);
}

#[test]
fn a_file_overrides_only_what_it_names() {
    let mut config = Config::default();
    config.apply_file_overrides("{\"include_gitlab\": false, \"github_refresh_interval\": 0}");
    assert!(!config.include_gitlab);
    assert!(config.include_github);
    assert_eq!(config.github_refresh_interval, 1);
    assert_eq!(config.gitlab_refresh_interval, 60);
    config.apply_file_overrides("not json");
    assert!(!config.include_gitlab);
}

#[test]
fn the_environment_overrides_the_file() {
    let mut env = no_environment();
    env.github_token = Some("SECRET-REDACTED".to_string());
    env.gitlab_api = Some("https://gitlab.example.com/".to_string());
    env.github_refresh = Some("15s".to_string());
    env.gitlab_refresh = Some("1min".to_string());
    env.preview = Some("YES".to_string());
    let config = Config::load(
        Some("{\"github_refresh_interval\": 30, \"gitlab_refresh_interval\": 40}"),
        &env,
    );
    assert_eq!(config.github_token.as_deref(), Some("SECRET-REDACTED"));
    assert_eq!(config.gitlab_api, "https://gitlab.example.com/api/v4");
    assert_eq!(config.github_refresh_interval, 15);
    assert_eq!(config.gitlab_refresh_interval, 40);
    assert!(config.preview_enabled);
}

#[test]
fn preview_flag_words() {
    assert_eq!(parse_preview_flag("1"), Some(true));
    assert_eq!(parse_preview_flag("On"), Some(true));
    assert_eq!(parse_preview_flag(" on "), None);
    assert_eq!(parse_preview_flag("off"), Some(false));
    assert_eq!(parse_preview_flag("no"), Some(false));
    assert_eq!(parse_preview_flag("maybe"), None);
}

#[test]
fn languages_come_back_from_their_codes() {
    for language in [
        Language::English,
        Language::Chinese,
        Language::Japanese,
        Language::Korean,
        Language::French,
        Language::Russian,
    ] {
        assert_eq!(Language::from_code(language.code()), Some(language));
    }
    assert_eq!(Language::from_code(" JA "), Some(Language::Japanese));
    assert_eq!(Language::from_code("de"), None);
}

#[test]
fn a_number_of_seconds_is_an_interval() {
    for seconds in [1u64, 59, 60, 3600, u64::MAX] {
        assert_eq!(parse_refresh_interval(&seconds.to_string()), Some(seconds));
    }
    assert_eq!(parse_refresh_interval("18446744073709551616"), None);
    assert_eq!(parse_refresh_interval(" 5 seconds "), Some(5));
}

#[test]
fn a_normal_gitlab_address_stays() {
    for url in ["https://gitlab.example.com", "", "x/api/v4///", "a/api/v4/api/v4"] {
        let once = normalize_gitlab_api_url(url);
        assert_eq!(normalize_gitlab_api_url(&once), once);
    }
}

#[test]
fn runtime_switches_follow_the_configuration() {
    let mut config = Config::default();
    config.include_gitlab = false;
    let mut runtime = RuntimeConfig::new(&config);
    assert!(runtime.include_browser());
    assert!(!runtime.include_gitlab());
    runtime.set_include_gitlab(true);
    runtime.set_include_dockerhub(false);
    assert!(runtime.include_gitlab());
    assert!(!runtime.include_dockerhub());
    let before = runtime.snapshot();
    runtime.set_include_github(false);
    assert!(before.include_github());
    assert!(!runtime.include_github());
    assert!(runtime.include_browser());
}
