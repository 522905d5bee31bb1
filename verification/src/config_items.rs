//! The settings that the configuration tab lists.
use crate::config::{interval_of, law_interval_of_decimal, Config, ConfigView};
use crate::text::{decimal, decimal_of, glue, opt_text};
use vstd::prelude::*;
use vstd::string::*;

verus! {

/// How a setting is changed.
#[derive(Clone, Copy, Debug, PartialEq, Eq, Structural)]
pub enum ConfigEditKind {
    Toggle,
    Text,
    Secret,
    ReadOnly,
}

/// A setting: three levels of headings, its value, and what is said about it.
#[derive(Debug)]
pub struct ConfigItem {
    pub level1: String,
    pub level2: String,
    pub level3: String,
    pub current: String,
    pub detail: String,
    pub haystack: String,
    pub edit_kind: ConfigEditKind,
}

/// What a setting holds.
#[verifier::ext_equal]
pub struct ItemView {
    pub level1: Seq<char>,
    pub level2: Seq<char>,
    pub level3: Seq<char>,
    pub current: Seq<char>,
    pub detail: Seq<char>,
    pub haystack: Seq<char>,
    pub edit_kind: ConfigEditKind,
}

impl View for ConfigItem {
    type V = ItemView;

    open spec fn view(&self) -> ItemView {
        ItemView {
            level1: self.level1@,
            level2: self.level2@,
            level3: self.level3@,
            current: self.current@,
            detail: self.detail@,
            haystack: self.haystack@,
            edit_kind: self.edit_kind,
        }
    }
}

pub open spec fn item_views(items: Seq<ConfigItem>) -> Seq<ItemView> {
    items.map_values(|item: ConfigItem| item@)
}

/// A setting with the text that queries are matched against.
pub open spec fn item_of(
    level1: Seq<char>,
    level2: Seq<char>,
    level3: Seq<char>,
    current: Seq<char>,
    configure: Seq<char>,
    detail: Seq<char>,
    edit_kind: ConfigEditKind,
) -> ItemView {
    ItemView {
        level1,
        level2,
        level3,
        current,
        detail,
        haystack: level1 + " "@ + level2 + " "@ + level3 + " "@ + current + " "@ + configure + " "@
            + detail,
        edit_kind,
    }
}

impl ConfigItem {
    pub fn new(
        level1: &str,
        level2: &str,
        level3: &str,
        current: &str,
        configure: &str,
        detail: &str,
        edit_kind: ConfigEditKind,
    ) -> (r: Self)
        ensures
            r@ == item_of(level1@, level2@, level3@, current@, configure@, detail@, edit_kind),
    {
        let mut haystack = level1.to_string();
        haystack.append(" ");
        haystack.append(level2);
        haystack.append(" ");
        haystack.append(level3);
        haystack.append(" ");
        haystack.append(current);
        haystack.append(" ");
        haystack.append(configure);
        haystack.append(" ");
        haystack.append(detail);
        ConfigItem {
            level1: level1.to_string(),
            level2: level2.to_string(),
            level3: level3.to_string(),
            current: current.to_string(),
            detail: detail.to_string(),
            haystack,
            edit_kind,
        }
    }
}

// ---------------------------------------------------------------------------
// Values in words
// ---------------------------------------------------------------------------

pub open spec fn enabled_words(value: bool) -> Seq<char> {
    if value {
        "enabled"@
    } else {
        "disabled"@
    }
}

pub fn enabled_text(value: bool) -> (r: &'static str)
    ensures
        r@ == enabled_words(value),
{
    if value {
        "enabled"
    } else {
        "disabled"
    }
}

/// Whether there is a secret. The secret itself is not shown.
pub open spec fn secret_words(value: Option<Seq<char>>) -> Seq<char> {
    match value {
        Some(secret) => if secret.len() > 0 {
            "present"@
        } else {
            "missing"@
        },
        None => "missing"@,
    }
}

pub fn secret_status(value: &Option<String>) -> (r: &'static str)
    ensures
        r@ == secret_words(opt_text(*value)),
{
    match value {
        Some(secret) => if secret.as_str().is_empty() {
            "missing"
        } else {
            "present"
        },
        None => "missing",
    }
}

pub open spec fn optional_words(value: Option<Seq<char>>) -> Seq<char> {
    match value {
        Some(text) => if text.len() > 0 {
            text
        } else {
            "not set"@
        },
        None => "not set"@,
    }
}

pub fn optional_value(value: &Option<String>) -> (r: String)
    ensures
        r@ == optional_words(opt_text(*value)),
{
    match value {
        Some(text) => if text.as_str().is_empty() {
            "not set".to_string()
        } else {
            text.clone()
        },
        None => "not set".to_string(),
    }
}

/// An interval in minutes where it is a whole number of them, else in seconds.
pub open spec fn interval_text(seconds: u64) -> Seq<char> {
    if seconds >= 60 && seconds % 60 == 0 {
        decimal((seconds / 60) as nat) + "min"@
    } else {
        decimal(seconds as nat) + "s"@
    }
}

pub fn format_duration(seconds: u64) -> (r: String)
    ensures
        r@ == interval_text(seconds),
{
    if seconds >= 60 && seconds % 60 == 0 {
        glue(decimal_of(seconds / 60).as_str(), "min")
    } else {
        glue(decimal_of(seconds).as_str(), "s")
    }
}

// ---------------------------------------------------------------------------
// The list
// ---------------------------------------------------------------------------

/// The settings of a configuration.
pub open spec fn config_items_of(config: ConfigView) -> Seq<ItemView> {
    seq![
        item_of(
            "Browser"@,
            "Source"@,
            "Enabled"@,
            enabled_words(config.include_browser),
            "--no-browser"@,
            "Local browser history and bookmarks. Safari on macOS may require Full Disk Access for the terminal."@,
            ConfigEditKind::Toggle,
        ),
        item_of(
            "GitHub"@,
            "Source"@,
            "Enabled"@,
            enabled_words(config.include_github),
            "--no-github"@,
            "Search repositories visible to GitHub. Use GITHUB_TOKEN for private or organization repositories, or GITHUB_USER for public user repositories."@,
            ConfigEditKind::Toggle,
        ),
        item_of(
            "GitLab"@,
            "Source"@,
            "Enabled"@,
            enabled_words(config.include_gitlab),
            "--no-gitlab"@,
            "Search GitLab projects. Use GITLAB_TOKEN for membership projects; otherwise only public projects are queried."@,
            ConfigEditKind::Toggle,
        ),
        item_of(
            "DockerHub"@,
            "Source"@,
            "Enabled"@,
            enabled_words(config.include_dockerhub),
            "--no-dockerhub"@,
            "Search DockerHub repositories for DOCKERHUB_USERNAME. A token enables private repositories."@,
            ConfigEditKind::Toggle,
        ),
        item_of(
            "GitHub"@,
            "Auth"@,
            "Token"@,
            secret_words(config.github_token),
            "--github-token <token> or GITHUB_TOKEN"@,
            "Recommended acquisition: install gh, run gh auth login, then export GITHUB_TOKEN=$(gh auth token). Token needs repository read access for private repos."@,
            ConfigEditKind::Secret,
        ),
        item_of(
            "GitHub"@,
            "Auth"@,
            "User"@,
            optional_words(config.github_user),
            "--github-user <user> or GITHUB_USER"@,
            "Used when no token is provided. Fetches public owner repositories for the configured user."@,
            ConfigEditKind::Text,
        ),
        item_of(
            "GitLab"@,
            "Auth"@,
            "Token"@,
            secret_words(config.gitlab_token),
            "--gitlab-token <token> or GITLAB_TOKEN"@,
            "Recommended acquisition when glab is available: glab auth login, then export GITLAB_TOKEN=$(glab auth token). Token should have read_api scope."@,
            ConfigEditKind::Secret,
        ),
        item_of(
            "DockerHub"@,
            "Auth"@,
            "Token"@,
            secret_words(config.dockerhub_token),
            "--dockerhub-token <token> or DOCKERHUB_TOKEN"@,
            "Create a DockerHub Personal Access Token and export DOCKERHUB_TOKEN. Future automatic flow can read docker login credentials or request a PAT interactively."@,
            ConfigEditKind::Secret,
        ),
        item_of(
            "DockerHub"@,
            "Auth"@,
            "Username"@,
            optional_words(config.dockerhub_username),
            "--dockerhub-user <user> or DOCKERHUB_USERNAME"@,
            "Required for DockerHub repository search."@,
            ConfigEditKind::Text,
        ),
        item_of(
            "GitHub"@,
            "API"@,
            "Base URL"@,
            config.github_api,
            "--github-api <url> or GITHUB_API"@,
            "Set this for GitHub Enterprise, for example https://github.example.com/api/v3."@,
            ConfigEditKind::Text,
        ),
        item_of(
            "GitLab"@,
            "API"@,
            "Base URL"@,
            config.gitlab_api,
            "--gitlab-api <url> or GITLAB_API"@,
            "Set this for self-hosted GitLab, for example https://gitlab.example.com/api/v4."@,
            ConfigEditKind::Text,
        ),
        item_of(
            "Browser"@,
            "Refresh"@,
            "Interval"@,
            interval_text(config.history_refresh_interval),
            "WEB_FZF_HISTORY_REFRESH"@,
            "Accepts plain seconds, or seconds such as 5s."@,
            ConfigEditKind::Text,
        ),
        item_of(
            "GitHub"@,
            "Refresh"@,
            "Interval"@,
            interval_text(config.github_refresh_interval),
            "WEB_FZF_GITHUB_REFRESH"@,
            "Remote cache is used immediately; refresh runs in the background when this interval has elapsed."@,
            ConfigEditKind::Text,
        ),
        item_of(
            "GitLab"@,
            "Refresh"@,
            "Interval"@,
            interval_text(config.gitlab_refresh_interval),
            "WEB_FZF_GITLAB_REFRESH"@,
            "Remote cache is kept if refresh fails or returns no rows."@,
            ConfigEditKind::Text,
        ),
        item_of(
            "DockerHub"@,
            "Refresh"@,
            "Interval"@,
            interval_text(config.dockerhub_refresh_interval),
            "WEB_FZF_DOCKERHUB_REFRESH"@,
            "Controls DockerHub repository cache refresh frequency."@,
            ConfigEditKind::Text,
        ),
        item_of(
            "System"@,
            "Display"@,
            "Preview pane"@,
            enabled_words(config.preview_enabled),
            "WEB_FZF_PREVIEW or config file"@,
            "Enables the preview pane in normal result views."@,
            ConfigEditKind::Toggle,
        ),
        item_of(
            "System"@,
            "Diagnostics"@,
            "Debug logging"@,
            enabled_words(config.debug),
            "--debug"@,
            "Writes diagnostics to stderr. Redirect stderr to a file so it does not interfere with the TUI."@,
            ConfigEditKind::Toggle,
        ),
        item_of(
            "System"@,
            "Automation"@,
            "Token plan"@,
            "planned"@,
            "Config tab action menu"@,
            "GitHub can shell out to gh auth token, GitLab can shell out to glab auth token, and DockerHub can import existing docker login credentials or guide PAT creation. Tokens should be shown as present/missing only."@,
            ConfigEditKind::ReadOnly,
        ),
    ]
}

/// Lists the settings of a configuration.
pub fn build_config_items(config: &Config) -> (r: Vec<ConfigItem>)
    ensures
        item_views(r@) == config_items_of(config@),
{
    let items = vec![
        ConfigItem::new(
            "Browser",
            "Source",
            "Enabled",
            enabled_text(config.include_browser),
            "--no-browser",
            "Local browser history and bookmarks. Safari on macOS may require Full Disk Access for the terminal.",
            ConfigEditKind::Toggle,
        ),
        ConfigItem::new(
            "GitHub",
            "Source",
            "Enabled",
            enabled_text(config.include_github),
            "--no-github",
            "Search repositories visible to GitHub. Use GITHUB_TOKEN for private or organization repositories, or GITHUB_USER for public user repositories.",
            ConfigEditKind::Toggle,
        ),
        ConfigItem::new(
            "GitLab",
            "Source",
            "Enabled",
            enabled_text(config.include_gitlab),
            "--no-gitlab",
            "Search GitLab projects. Use GITLAB_TOKEN for membership projects; otherwise only public projects are queried.",
            ConfigEditKind::Toggle,
        ),
        ConfigItem::new(
            "DockerHub",
            "Source",
            "Enabled",
            enabled_text(config.include_dockerhub),
            "--no-dockerhub",
            "Search DockerHub repositories for DOCKERHUB_USERNAME. A token enables private repositories.",
            ConfigEditKind::Toggle,
        ),
        ConfigItem::new(
            "GitHub",
            "Auth",
            "Token",
            secret_status(&config.github_token),
            "--github-token <token> or GITHUB_TOKEN",
            "Recommended acquisition: install gh, run gh auth login, then export GITHUB_TOKEN=$(gh auth token). Token needs repository read access for private repos.",
            ConfigEditKind::Secret,
        ),
        ConfigItem::new(
            "GitHub",
            "Auth",
            "User",
            optional_value(&config.github_user).as_str(),
            "--github-user <user> or GITHUB_USER",
            "Used when no token is provided. Fetches public owner repositories for the configured user.",
            ConfigEditKind::Text,
        ),
        ConfigItem::new(
            "GitLab",
            "Auth",
            "Token",
            secret_status(&config.gitlab_token),
            "--gitlab-token <token> or GITLAB_TOKEN",
            "Recommended acquisition when glab is available: glab auth login, then export GITLAB_TOKEN=$(glab auth token). Token should have read_api scope.",
            ConfigEditKind::Secret,
        ),
        ConfigItem::new(
            "DockerHub",
            "Auth",
            "Token",
            secret_status(&config.dockerhub_token),
            "--dockerhub-token <token> or DOCKERHUB_TOKEN",
            "Create a DockerHub Personal Access Token and export DOCKERHUB_TOKEN. Future automatic flow can read docker login credentials or request a PAT interactively.",
            ConfigEditKind::Secret,
        ),
        ConfigItem::new(
            "DockerHub",
            "Auth",
            "Username",
            optional_value(&config.dockerhub_username).as_str(),
            "--dockerhub-user <user> or DOCKERHUB_USERNAME",
            "Required for DockerHub repository search.",
            ConfigEditKind::Text,
        ),
        ConfigItem::new(
            "GitHub",
            "API",
            "Base URL",
            config.github_api.as_str(),
            "--github-api <url> or GITHUB_API",
            "Set this for GitHub Enterprise, for example https://github.example.com/api/v3.",
            ConfigEditKind::Text,
        ),
        ConfigItem::new(
            "GitLab",
            "API",
            "Base URL",
            config.gitlab_api.as_str(),
            "--gitlab-api <url> or GITLAB_API",
            "Set this for self-hosted GitLab, for example https://gitlab.example.com/api/v4.",
            ConfigEditKind::Text,
        ),
        ConfigItem::new(
            "Browser",
            "Refresh",
            "Interval",
            format_duration(config.history_refresh_interval).as_str(),
            "WEB_FZF_HISTORY_REFRESH",
            "Accepts plain seconds, or seconds such as 5s.",
            ConfigEditKind::Text,
        ),
        ConfigItem::new(
            "GitHub",
            "Refresh",
            "Interval",
            format_duration(config.github_refresh_interval).as_str(),
            "WEB_FZF_GITHUB_REFRESH",
            "Remote cache is used immediately; refresh runs in the background when this interval has elapsed.",
            ConfigEditKind::Text,
        ),
        ConfigItem::new(
            "GitLab",
            "Refresh",
            "Interval",
            format_duration(config.gitlab_refresh_interval).as_str(),
            "WEB_FZF_GITLAB_REFRESH",
            "Remote cache is kept if refresh fails or returns no rows.",
            ConfigEditKind::Text,
        ),
        ConfigItem::new(
            "DockerHub",
            "Refresh",
            "Interval",
            format_duration(config.dockerhub_refresh_interval).as_str(),
            "WEB_FZF_DOCKERHUB_REFRESH",
            "Controls DockerHub repository cache refresh frequency.",
            ConfigEditKind::Text,
        ),
        ConfigItem::new(
            "System",
            "Display",
            "Preview pane",
            enabled_text(config.preview_enabled),
            "WEB_FZF_PREVIEW or config file",
            "Enables the preview pane in normal result views.",
            ConfigEditKind::Toggle,
        ),
        ConfigItem::new(
            "System",
            "Diagnostics",
            "Debug logging",
            enabled_text(config.debug),
            "--debug",
            "Writes diagnostics to stderr. Redirect stderr to a file so it does not interfere with the TUI.",
            ConfigEditKind::Toggle,
        ),
        ConfigItem::new(
            "System",
            "Automation",
            "Token plan",
            "planned",
            "Config tab action menu",
            "GitHub can shell out to gh auth token, GitLab can shell out to glab auth token, and DockerHub can import existing docker login credentials or guide PAT creation. Tokens should be shown as present/missing only.",
            ConfigEditKind::ReadOnly,
        ),
    ];
    assert(item_views(items@) =~= config_items_of(config@));
    items
}

/// Of the tokens the settings show only whether there are any.
pub proof fn law_secrets_are_not_shown(a: ConfigView, b: ConfigView)
    requires
        secret_words(a.github_token) == secret_words(b.github_token),
        secret_words(a.gitlab_token) == secret_words(b.gitlab_token),
        secret_words(a.dockerhub_token) == secret_words(b.dockerhub_token),
        b == (ConfigView {
            github_token: b.github_token,
            gitlab_token: b.gitlab_token,
            dockerhub_token: b.dockerhub_token,
            ..a
        }),
    ensures
        config_items_of(a) == config_items_of(b),
{
}

/// An interval as it is shown can be entered again, unless it is shown in
/// minutes.
pub proof fn law_shown_interval_is_accepted(seconds: u64)
    requires
        seconds > 0,
        !(seconds >= 60 && seconds % 60 == 0),
    ensures
        interval_of(interval_text(seconds)) == Some(seconds),
{
    law_interval_of_decimal(seconds);
}

} // verus!
