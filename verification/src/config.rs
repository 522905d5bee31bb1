//! The configuration: its defaults, and what overrides them.
use crate::json::{fields_model, json_text, lookup, object_text, parse_json, write_object};
use crate::json::{Json, JsonView, Scalar};
use crate::text::{decimal, is_digit, lower, lowercase, number, opt_text, trim, trim_end};
use crate::text::{ends_with, lowercased, read_number, same, strip_suffix, trimmed, trimmed_end};
use crate::text::{law_number_of_decimal, lemma_decimal_digits, lemma_trim_end};
use crate::text::{lemma_trim_ends, lemma_trim_nothing, Class};
use vstd::prelude::*;
use vstd::string::*;

verus! {

/// The language of the interface.
#[derive(Clone, Copy, Debug, PartialEq, Eq, Structural)]
pub enum Language {
    English,
    Chinese,
    Japanese,
    Korean,
    French,
    Russian,
}

/// The language that a code or an English name stands for.
pub open spec fn language_named(name: Seq<char>) -> Option<Language> {
    if name == "en"@ || name == "english"@ {
        Some(Language::English)
    } else if name == "zh"@ || name == "zh-cn"@ || name == "zh-hans"@ || name == "chinese"@ {
        Some(Language::Chinese)
    } else if name == "ja"@ || name == "japanese"@ {
        Some(Language::Japanese)
    } else if name == "ko"@ || name == "korean"@ {
        Some(Language::Korean)
    } else if name == "fr"@ || name == "french"@ {
        Some(Language::French)
    } else if name == "ru"@ || name == "russian"@ {
        Some(Language::Russian)
    } else {
        None
    }
}

/// The language that a text names, in any case and with white space around it.
pub open spec fn language_of(value: Seq<char>) -> Option<Language> {
    language_named(lowercase(trim(value, Class::Space)))
}

impl Language {
    pub open spec fn code_text(self) -> Seq<char> {
        match self {
            Language::English => "en"@,
            Language::Chinese => "zh"@,
            Language::Japanese => "ja"@,
            Language::Korean => "ko"@,
            Language::French => "fr"@,
            Language::Russian => "ru"@,
        }
    }

    /// The two letter code of the language.
    pub fn code(self) -> (r: &'static str)
        ensures
            r@ == self.code_text(),
    {
        match self {
            Language::English => "en",
            Language::Chinese => "zh",
            Language::Japanese => "ja",
            Language::Korean => "ko",
            Language::French => "fr",
            Language::Russian => "ru",
        }
    }

    /// The language that a code or a name stands for.
    pub fn from_code(value: &str) -> (r: Option<Self>)
        ensures
            r == language_of(value@),
    {
        let name = lowercased(trimmed(value, Class::Space).as_str());
        let name = name.as_str();
        if same(name, "en") || same(name, "english") {
            Some(Language::English)
        } else if same(name, "zh") || same(name, "zh-cn") || same(name, "zh-hans") || same(
            name,
            "chinese",
        ) {
            Some(Language::Chinese)
        } else if same(name, "ja") || same(name, "japanese") {
            Some(Language::Japanese)
        } else if same(name, "ko") || same(name, "korean") {
            Some(Language::Korean)
        } else if same(name, "fr") || same(name, "french") {
            Some(Language::French)
        } else if same(name, "ru") || same(name, "russian") {
            Some(Language::Russian)
        } else {
            None
        }
    }
}

/// The code of a language names that language.
pub proof fn law_language_of_code(language: Language)
    ensures
        language_of(language.code_text()) == Some(language),
{
    reveal_strlit("en");
    reveal_strlit("zh");
    reveal_strlit("ja");
    reveal_strlit("ko");
    reveal_strlit("fr");
    reveal_strlit("ru");
    reveal_strlit("english");
    reveal_strlit("zh-cn");
    reveal_strlit("zh-hans");
    reveal_strlit("chinese");
    reveal_strlit("japanese");
    reveal_strlit("korean");
    reveal_strlit("french");
    reveal_strlit("russian");
    let code = language.code_text();
    assert(trim(code, Class::Space) == code);
    assert(lowercase(code) =~= code);
    assert("en"@[0] != "zh"@[0]);
    assert("ja"@[0] != "zh"@[0] && "ja"@[0] != "en"@[0]);
    assert("ko"@[0] != "zh"@[0] && "ko"@[0] != "en"@[0] && "ko"@[0] != "ja"@[0]);
    assert("fr"@[0] != "zh"@[0] && "fr"@[0] != "en"@[0] && "fr"@[0] != "ja"@[0] && "fr"@[0]
        != "ko"@[0]);
    assert("ru"@[0] != "zh"@[0] && "ru"@[0] != "en"@[0] && "ru"@[0] != "ja"@[0] && "ru"@[0]
        != "ko"@[0] && "ru"@[0] != "fr"@[0]);
}

/// The configuration of a run. The refresh intervals are in seconds.
#[derive(Debug)]
pub struct Config {
    pub include_browser: bool,
    pub include_github: bool,
    pub include_gitlab: bool,
    pub include_dockerhub: bool,
    pub github_token: Option<String>,
    pub gitlab_token: Option<String>,
    pub github_api: String,
    pub gitlab_api: String,
    pub github_user: Option<String>,
    pub dockerhub_token: Option<String>,
    pub dockerhub_username: Option<String>,
    pub history_refresh_interval: u64,
    pub github_refresh_interval: u64,
    pub gitlab_refresh_interval: u64,
    pub dockerhub_refresh_interval: u64,
    pub preview_enabled: bool,
    pub debug: bool,
    pub language: Language,
}

/// What a configuration holds.
#[verifier::ext_equal]
pub struct ConfigView {
    pub include_browser: bool,
    pub include_github: bool,
    pub include_gitlab: bool,
    pub include_dockerhub: bool,
    pub github_token: Option<Seq<char>>,
    pub gitlab_token: Option<Seq<char>>,
    pub github_api: Seq<char>,
    pub gitlab_api: Seq<char>,
    pub github_user: Option<Seq<char>>,
    pub dockerhub_token: Option<Seq<char>>,
    pub dockerhub_username: Option<Seq<char>>,
    pub history_refresh_interval: u64,
    pub github_refresh_interval: u64,
    pub gitlab_refresh_interval: u64,
    pub dockerhub_refresh_interval: u64,
    pub preview_enabled: bool,
    pub debug: bool,
    pub language: Language,
}

impl View for Config {
    type V = ConfigView;

    open spec fn view(&self) -> ConfigView {
        ConfigView {
            include_browser: self.include_browser,
            include_github: self.include_github,
            include_gitlab: self.include_gitlab,
            include_dockerhub: self.include_dockerhub,
            github_token: opt_text(self.github_token),
            gitlab_token: opt_text(self.gitlab_token),
            github_api: self.github_api@,
            gitlab_api: self.gitlab_api@,
            github_user: opt_text(self.github_user),
            dockerhub_token: opt_text(self.dockerhub_token),
            dockerhub_username: opt_text(self.dockerhub_username),
            history_refresh_interval: self.history_refresh_interval,
            github_refresh_interval: self.github_refresh_interval,
            gitlab_refresh_interval: self.gitlab_refresh_interval,
            dockerhub_refresh_interval: self.dockerhub_refresh_interval,
            preview_enabled: self.preview_enabled,
            debug: self.debug,
            language: self.language,
        }
    }
}

impl Clone for Config {
    fn clone(&self) -> (r: Self)
        ensures
            r@ == self@,
    {
        Config {
            include_browser: self.include_browser,
            include_github: self.include_github,
            include_gitlab: self.include_gitlab,
            include_dockerhub: self.include_dockerhub,
            github_token: copied(&self.github_token),
            gitlab_token: copied(&self.gitlab_token),
            github_api: self.github_api.clone(),
            gitlab_api: self.gitlab_api.clone(),
            github_user: copied(&self.github_user),
            dockerhub_token: copied(&self.dockerhub_token),
            dockerhub_username: copied(&self.dockerhub_username),
            history_refresh_interval: self.history_refresh_interval,
            github_refresh_interval: self.github_refresh_interval,
            gitlab_refresh_interval: self.gitlab_refresh_interval,
            dockerhub_refresh_interval: self.dockerhub_refresh_interval,
            preview_enabled: self.preview_enabled,
            debug: self.debug,
            language: self.language,
        }
    }
}

fn copied(text: &Option<String>) -> (r: Option<String>)
    ensures
        opt_text(r) == opt_text(*text),
{
    match text {
        Some(t) => Some(t.clone()),
        None => None,
    }
}

/// The configuration that holds where nothing overrides it; `load` asks the
/// environment whether it wants a preview.
pub open spec fn default_config() -> ConfigView {
    ConfigView {
        include_browser: true,
        include_github: true,
        include_gitlab: true,
        include_dockerhub: true,
        github_token: None,
        gitlab_token: None,
        github_api: "https://api.github.com"@,
        gitlab_api: "https://gitlab.com/api/v4"@,
        github_user: None,
        dockerhub_token: None,
        dockerhub_username: None,
        history_refresh_interval: 5,
        github_refresh_interval: 60,
        gitlab_refresh_interval: 60,
        dockerhub_refresh_interval: 60,
        preview_enabled: false,
        debug: false,
        language: Language::English,
    }
}

impl Default for Config {
    fn default() -> (r: Self)
        ensures
            r@ == default_config(),
    {
        Config {
            include_browser: true,
            include_github: true,
            include_gitlab: true,
            include_dockerhub: true,
            github_token: None,
            gitlab_token: None,
            github_api: "https://api.github.com".to_string(),
            gitlab_api: "https://gitlab.com/api/v4".to_string(),
            github_user: None,
            dockerhub_token: None,
            dockerhub_username: None,
            history_refresh_interval: 5,
            github_refresh_interval: 60,
            gitlab_refresh_interval: 60,
            dockerhub_refresh_interval: 60,
            preview_enabled: false,
            debug: false,
            language: Language::English,
        }
    }
}

// ---------------------------------------------------------------------------
// Single values
// ---------------------------------------------------------------------------

/// A text without the unit of seconds at its end.
pub open spec fn without_unit(value: Seq<char>) -> Seq<char> {
    if "seconds"@.is_suffix_of(value) {
        value.take(value.len() - "seconds"@.len())
    } else if "second"@.is_suffix_of(value) {
        value.take(value.len() - "second"@.len())
    } else if "secs"@.is_suffix_of(value) {
        value.take(value.len() - "secs"@.len())
    } else if "sec"@.is_suffix_of(value) {
        value.take(value.len() - "sec"@.len())
    } else if "s"@.is_suffix_of(value) {
        value.take(value.len() - "s"@.len())
    } else {
        value
    }
}

/// The refresh interval in seconds that a text stands for: a positive number,
/// with a unit of seconds or without.
pub open spec fn interval_of(value: Seq<char>) -> Option<u64> {
    let plain = lowercase(trim(value, Class::Space));
    match number(trim(without_unit(plain), Class::Space)) {
        Ok(n) => if n == 0 {
            None
        } else {
            Some(n as u64)
        },
        Err(_) => None,
    }
}

/// Reads a refresh interval in seconds.
pub fn parse_refresh_interval(value: &str) -> (r: Option<u64>)
    ensures
        r == interval_of(value@),
{
    let value = lowercased(trimmed(value, Class::Space).as_str());
    proof {
        reveal_strlit("seconds");
        reveal_strlit("second");
        reveal_strlit("secs");
        reveal_strlit("sec");
        reveal_strlit("s");
    }
    if value.as_str().is_empty() {
        assert(without_unit(value@) == value@);
        return None;
    }
    let digits = if let Some(rest) = strip_suffix(value.as_str(), "seconds") {
        rest
    } else if let Some(rest) = strip_suffix(value.as_str(), "second") {
        rest
    } else if let Some(rest) = strip_suffix(value.as_str(), "secs") {
        rest
    } else if let Some(rest) = strip_suffix(value.as_str(), "sec") {
        rest
    } else if let Some(rest) = strip_suffix(value.as_str(), "s") {
        rest
    } else {
        value.clone()
    };
    match read_number(trimmed(digits.as_str(), Class::Space).as_str()) {
        Ok(seconds) => if seconds == 0 {
            None
        } else {
            Some(seconds)
        },
        Err(_) => None,
    }
}

/// The address of the GitLab interface for an address that was configured.
pub open spec fn gitlab_api_of(value: Seq<char>) -> Seq<char> {
    let base = trim_end(trim(value, Class::Space), Class::Just('/'));
    if base.len() == 0 {
        "https://gitlab.com/api/v4"@
    } else if "/api/v4"@.is_suffix_of(base) {
        base
    } else {
        base + "/api/v4"@
    }
}

/// Completes the address of a GitLab server to that of its interface.
pub fn normalize_gitlab_api_url(value: &str) -> (r: String)
    ensures
        r@ == gitlab_api_of(value@),
{
    let base = trimmed_end(trimmed(value, Class::Space).as_str(), Class::Just('/'));
    if base.as_str().is_empty() {
        return "https://gitlab.com/api/v4".to_string();
    }
    if ends_with(base.as_str(), "/api/v4") {
        base
    } else {
        let mut out = base;
        out.append("/api/v4");
        out
    }
}

/// Whether a setting switches the preview on or off.
pub open spec fn preview_flag_of(value: Seq<char>) -> Option<bool> {
    let flag = lowercase(value);
    if flag == "1"@ || flag == "true"@ || flag == "yes"@ || flag == "on"@ {
        Some(true)
    } else if flag == "0"@ || flag == "false"@ || flag == "no"@ || flag == "off"@ {
        Some(false)
    } else {
        None
    }
}

pub fn parse_preview_flag(value: &str) -> (r: Option<bool>)
    ensures
        r == preview_flag_of(value@),
{
    let flag = lowercased(value);
    let flag = flag.as_str();
    if same(flag, "1") || same(flag, "true") || same(flag, "yes") || same(flag, "on") {
        Some(true)
    } else if same(flag, "0") || same(flag, "false") || same(flag, "no") || same(flag, "off") {
        Some(false)
    } else {
        None
    }
}

// ---------------------------------------------------------------------------
// Overrides from a file
// ---------------------------------------------------------------------------

/// The field `key` where it is a text or null.
pub open spec fn optional_text_at(value: JsonView, key: Seq<char>) -> Option<Option<Seq<char>>> {
    match value.get(key) {
        Some(JsonView::Null) => Some(None),
        Some(JsonView::Text(text)) => Some(Some(text)),
        _ => None,
    }
}

fn json_optional_string(value: &Json, key: &str) -> (r: Option<Option<String>>)
    ensures
        match r {
            Some(t) => optional_text_at(value.model(), key@) == Some(opt_text(t)),
            None => optional_text_at(value.model(), key@) is None,
        },
{
    match value.get(key) {
        Some(Json::Null) => Some(None),
        Some(Json::Text(text)) => Some(Some(text.clone())),
        _ => None,
    }
}

/// What `found` holds, or `kept`.
pub open spec fn or<T>(found: Option<T>, kept: T) -> T {
    match found {
        Some(v) => v,
        None => kept,
    }
}

/// An interval of at least a second.
pub open spec fn at_least_one(found: Option<u64>) -> Option<u64> {
    match found {
        Some(n) => Some(if n == 0 {
            1
        } else {
            n
        }),
        None => None,
    }
}

/// The language that a field names.
pub open spec fn language_at(value: JsonView, key: Seq<char>) -> Option<Language> {
    match value.text_at(key) {
        Some(text) => language_of(text),
        None => None,
    }
}

impl ConfigView {
    /// The configuration after the fields of a JSON object have replaced its
    /// own. A field of another type than is asked for is passed over.
    pub open spec fn overridden(self, value: JsonView) -> ConfigView {
        ConfigView {
            include_browser: or(value.bool_at("include_browser"@), self.include_browser),
            include_github: or(value.bool_at("include_github"@), self.include_github),
            include_gitlab: or(value.bool_at("include_gitlab"@), self.include_gitlab),
            include_dockerhub: or(value.bool_at("include_dockerhub"@), self.include_dockerhub),
            github_token: or(optional_text_at(value, "github_token"@), self.github_token),
            gitlab_token: or(optional_text_at(value, "gitlab_token"@), self.gitlab_token),
            github_api: or(value.text_at("github_api"@), self.github_api),
            gitlab_api: or(value.text_at("gitlab_api"@), self.gitlab_api),
            github_user: or(optional_text_at(value, "github_user"@), self.github_user),
            dockerhub_token: or(optional_text_at(value, "dockerhub_token"@), self.dockerhub_token),
            dockerhub_username: or(optional_text_at(value, "dockerhub_username"@), self.dockerhub_username),
            history_refresh_interval: or(at_least_one(value.number_at("history_refresh_interval"@)), self.history_refresh_interval),
            github_refresh_interval: or(at_least_one(value.number_at("github_refresh_interval"@)), self.github_refresh_interval),
            gitlab_refresh_interval: or(at_least_one(value.number_at("gitlab_refresh_interval"@)), self.gitlab_refresh_interval),
            dockerhub_refresh_interval: or(at_least_one(value.number_at("dockerhub_refresh_interval"@)), self.dockerhub_refresh_interval),
            preview_enabled: or(value.bool_at("preview_enabled"@), self.preview_enabled),
            debug: or(value.bool_at("debug"@), self.debug),
            language: or(language_at(value, "language"@), self.language),
        }
    }

    /// The configuration as a file gives it back: no interval is shorter than
    /// a second.
    pub open spec fn storable(self) -> ConfigView {
        ConfigView {
            history_refresh_interval: at_least_one(Some(self.history_refresh_interval))->0,
            github_refresh_interval: at_least_one(Some(self.github_refresh_interval))->0,
            gitlab_refresh_interval: at_least_one(Some(self.gitlab_refresh_interval))->0,
            dockerhub_refresh_interval: at_least_one(Some(self.dockerhub_refresh_interval))->0,
            ..self
        }
    }

    /// The fields under which the configuration is stored.
    pub open spec fn fields(self) -> Seq<(Seq<char>, JsonView)> {
        seq![
            ("include_browser"@, JsonView::Bool(self.include_browser)),
            ("include_github"@, JsonView::Bool(self.include_github)),
            ("include_gitlab"@, JsonView::Bool(self.include_gitlab)),
            ("include_dockerhub"@, JsonView::Bool(self.include_dockerhub)),
            ("github_token"@, optional_model(self.github_token)),
            ("gitlab_token"@, optional_model(self.gitlab_token)),
            ("github_api"@, JsonView::Text(self.github_api)),
            ("gitlab_api"@, JsonView::Text(self.gitlab_api)),
            ("github_user"@, optional_model(self.github_user)),
            ("dockerhub_token"@, optional_model(self.dockerhub_token)),
            ("dockerhub_username"@, optional_model(self.dockerhub_username)),
            ("history_refresh_interval"@, JsonView::Number(Some(self.history_refresh_interval))),
            ("github_refresh_interval"@, JsonView::Number(Some(self.github_refresh_interval))),
            ("gitlab_refresh_interval"@, JsonView::Number(Some(self.gitlab_refresh_interval))),
            ("dockerhub_refresh_interval"@, JsonView::Number(Some(self.dockerhub_refresh_interval))),
            ("preview_enabled"@, JsonView::Bool(self.preview_enabled)),
            ("debug"@, JsonView::Bool(self.debug)),
            ("language"@, JsonView::Text(self.language.code_text())),
        ]
    }
}

/// A text, or null where there is none.
pub open spec fn optional_model(text: Option<Seq<char>>) -> JsonView {
    match text {
        Some(t) => JsonView::Text(t),
        None => JsonView::Null,
    }
}

/// Replaces what the fields of a JSON object give.
pub fn apply_json_overrides(config: &mut Config, value: &Json)
    ensures
        final(config)@ == old(config)@.overridden(value.model()),
{
    config.include_browser = bool_or(value, "include_browser", config.include_browser);
    config.include_github = bool_or(value, "include_github", config.include_github);
    config.include_gitlab = bool_or(value, "include_gitlab", config.include_gitlab);
    config.include_dockerhub = bool_or(value, "include_dockerhub", config.include_dockerhub);
    config.github_token = optional_or(value, "github_token", &config.github_token);
    config.gitlab_token = optional_or(value, "gitlab_token", &config.gitlab_token);
    config.github_api = text_or(value, "github_api", &config.github_api);
    config.gitlab_api = text_or(value, "gitlab_api", &config.gitlab_api);
    config.github_user = optional_or(value, "github_user", &config.github_user);
    config.dockerhub_token = optional_or(value, "dockerhub_token", &config.dockerhub_token);
    config.dockerhub_username = optional_or(value, "dockerhub_username", &config.dockerhub_username);
    config.history_refresh_interval = interval_or(value, "history_refresh_interval", config.history_refresh_interval);
    config.github_refresh_interval = interval_or(value, "github_refresh_interval", config.github_refresh_interval);
    config.gitlab_refresh_interval = interval_or(value, "gitlab_refresh_interval", config.gitlab_refresh_interval);
    config.dockerhub_refresh_interval = interval_or(value, "dockerhub_refresh_interval", config.dockerhub_refresh_interval);
    config.preview_enabled = bool_or(value, "preview_enabled", config.preview_enabled);
    config.debug = bool_or(value, "debug", config.debug);
    config.language = language_or(value, "language", config.language);
}

fn bool_or(value: &Json, key: &str, kept: bool) -> (r: bool)
    ensures
        r == or(value.model().bool_at(key@), kept),
{
    match value.bool_at(key) {
        Some(found) => found,
        None => kept,
    }
}

fn text_or(value: &Json, key: &str, kept: &String) -> (r: String)
    ensures
        r@ == or(value.model().text_at(key@), kept@),
{
    match value.text_at(key) {
        Some(found) => found.clone(),
        None => kept.clone(),
    }
}

fn optional_or(value: &Json, key: &str, kept: &Option<String>) -> (r: Option<String>)
    ensures
        opt_text(r) == or(optional_text_at(value.model(), key@), opt_text(*kept)),
{
    match json_optional_string(value, key) {
        Some(found) => found,
        None => copied(kept),
    }
}

fn interval_or(value: &Json, key: &str, kept: u64) -> (r: u64)
    ensures
        r == or(at_least_one(value.model().number_at(key@)), kept),
{
    match value.number_at(key) {
        Some(seconds) => if seconds == 0 {
            1
        } else {
            seconds
        },
        None => kept,
    }
}

fn language_or(value: &Json, key: &str, kept: Language) -> (r: Language)
    ensures
        r == or(language_at(value.model(), key@), kept),
{
    match value.text_at(key) {
        Some(code) => match Language::from_code(code.as_str()) {
            Some(language) => language,
            None => kept,
        },
        None => kept,
    }
}

fn optional_scalar(text: &Option<String>) -> (r: Scalar)
    ensures
        r.model() == optional_model(opt_text(*text)),
{
    match text {
        Some(t) => Scalar::Text(t.clone()),
        None => Scalar::Null,
    }
}

/// Writes a configuration as a JSON object. Whatever configuration it is read
/// over, it comes back as it was, but for intervals of nothing.
pub fn format_persisted_config(config: &Config) -> (r: String)
    ensures
        r@ == object_text(config@.fields()),
        json_text(r@) is Ok,
        forall|base: ConfigView| #[trigger]
            base.overridden(json_text(r@)->Ok_0) == config@.storable(),
{
    let fields = vec![
        ("include_browser".to_string(), Scalar::Bool(config.include_browser)),
        ("include_github".to_string(), Scalar::Bool(config.include_github)),
        ("include_gitlab".to_string(), Scalar::Bool(config.include_gitlab)),
        ("include_dockerhub".to_string(), Scalar::Bool(config.include_dockerhub)),
        ("github_token".to_string(), optional_scalar(&config.github_token)),
        ("gitlab_token".to_string(), optional_scalar(&config.gitlab_token)),
        ("github_api".to_string(), Scalar::Text(config.github_api.clone())),
        ("gitlab_api".to_string(), Scalar::Text(config.gitlab_api.clone())),
        ("github_user".to_string(), optional_scalar(&config.github_user)),
        ("dockerhub_token".to_string(), optional_scalar(&config.dockerhub_token)),
        ("dockerhub_username".to_string(), optional_scalar(&config.dockerhub_username)),
        ("history_refresh_interval".to_string(), Scalar::Number(config.history_refresh_interval)),
        ("github_refresh_interval".to_string(), Scalar::Number(config.github_refresh_interval)),
        ("gitlab_refresh_interval".to_string(), Scalar::Number(config.gitlab_refresh_interval)),
        ("dockerhub_refresh_interval".to_string(), Scalar::Number(config.dockerhub_refresh_interval)),
        ("preview_enabled".to_string(), Scalar::Bool(config.preview_enabled)),
        ("debug".to_string(), Scalar::Bool(config.debug)),
        ("language".to_string(), Scalar::Text(config.language.code().to_string())),
    ];
    assert(fields_model(fields@) =~= config@.fields());
    let text = write_object(&fields);
    proof {
        assert forall|base: ConfigView| #[trigger]
            base.overridden(json_text(text@)->Ok_0) == config@.storable() by {
            law_stored_config_comes_back(config@, base, json_text(text@)->Ok_0);
        }
    }
    text
}

spec fn key_index(name: Seq<char>) -> int {
    if name == "include_browser"@ {
        0
    } else if name == "include_github"@ {
        1
    } else if name == "include_gitlab"@ {
        2
    } else if name == "include_dockerhub"@ {
        3
    } else if name == "github_token"@ {
        4
    } else if name == "gitlab_token"@ {
        5
    } else if name == "github_api"@ {
        6
    } else if name == "gitlab_api"@ {
        7
    } else if name == "github_user"@ {
        8
    } else if name == "dockerhub_token"@ {
        9
    } else if name == "dockerhub_username"@ {
        10
    } else if name == "history_refresh_interval"@ {
        11
    } else if name == "github_refresh_interval"@ {
        12
    } else if name == "gitlab_refresh_interval"@ {
        13
    } else if name == "dockerhub_refresh_interval"@ {
        14
    } else if name == "preview_enabled"@ {
        15
    } else if name == "debug"@ {
        16
    } else if name == "language"@ {
        17
    } else {
        18
    }
}

proof fn lemma_key_indices(c: ConfigView)
    ensures
        c.fields().len() == 18,
        forall|i: int| 0 <= i < 18 ==> key_index((#[trigger] c.fields()[i]).0) == i,
{
    reveal_strlit("include_browser");
    assert("include_browser"@.len() == 15);
    reveal_strlit("include_github");
    assert("include_github"@.len() == 14);
    reveal_strlit("include_gitlab");
    assert("include_gitlab"@.len() == 14);
    reveal_strlit("include_dockerhub");
    assert("include_dockerhub"@.len() == 17);
    reveal_strlit("github_token");
    assert("github_token"@.len() == 12);
    reveal_strlit("gitlab_token");
    assert("gitlab_token"@.len() == 12);
    reveal_strlit("github_api");
    assert("github_api"@.len() == 10);
    reveal_strlit("gitlab_api");
    assert("gitlab_api"@.len() == 10);
    reveal_strlit("github_user");
    assert("github_user"@.len() == 11);
    reveal_strlit("dockerhub_token");
    assert("dockerhub_token"@.len() == 15);
    reveal_strlit("dockerhub_username");
    assert("dockerhub_username"@.len() == 18);
    reveal_strlit("history_refresh_interval");
    assert("history_refresh_interval"@.len() == 24);
    reveal_strlit("github_refresh_interval");
    assert("github_refresh_interval"@.len() == 23);
    reveal_strlit("gitlab_refresh_interval");
    assert("gitlab_refresh_interval"@.len() == 23);
    reveal_strlit("dockerhub_refresh_interval");
    assert("dockerhub_refresh_interval"@.len() == 26);
    reveal_strlit("preview_enabled");
    assert("preview_enabled"@.len() == 15);
    reveal_strlit("debug");
    assert("debug"@.len() == 5);
    reveal_strlit("language");
    assert("language"@.len() == 8);
    assert("include_browser"@[0] != "dockerhub_token"@[0]);
    assert("include_browser"@[0] != "preview_enabled"@[0]);
    assert("include_github"@[11] != "include_gitlab"@[11]);
    assert("github_token"@[3] != "gitlab_token"@[3]);
    assert("github_api"@[3] != "gitlab_api"@[3]);
    assert("dockerhub_token"@[0] != "preview_enabled"@[0]);
    assert("github_refresh_interval"@[3] != "gitlab_refresh_interval"@[3]);
    assert(key_index(c.fields()[0].0) == 0);
    assert(key_index(c.fields()[1].0) == 1);
    assert(key_index(c.fields()[2].0) == 2);
    assert(key_index(c.fields()[3].0) == 3);
    assert(key_index(c.fields()[4].0) == 4);
    assert(key_index(c.fields()[5].0) == 5);
    assert(key_index(c.fields()[6].0) == 6);
    assert(key_index(c.fields()[7].0) == 7);
    assert(key_index(c.fields()[8].0) == 8);
    assert(key_index(c.fields()[9].0) == 9);
    assert(key_index(c.fields()[10].0) == 10);
    assert(key_index(c.fields()[11].0) == 11);
    assert(key_index(c.fields()[12].0) == 12);
    assert(key_index(c.fields()[13].0) == 13);
    assert(key_index(c.fields()[14].0) == 14);
    assert(key_index(c.fields()[15].0) == 15);
    assert(key_index(c.fields()[16].0) == 16);
    assert(key_index(c.fields()[17].0) == 17);
}

proof fn lemma_lookup(fields: Seq<(Seq<char>, JsonView)>, at: int)
    requires
        0 <= at < fields.len(),
        forall|j: int| at < j < fields.len() ==> (#[trigger] fields[j]).0 != fields[at].0,
    ensures
        lookup(fields, fields[at].0) == Some(fields[at].1),
    decreases fields.len(),
{
    if at + 1 < fields.len() {
        assert(fields[fields.len() - 1].0 != fields[at].0);
        let shorter = fields.drop_last();
        assert forall|j: int| at < j < shorter.len() implies (#[trigger] shorter[j]).0
            != shorter[at].0 by {
            assert(fields[j].0 != fields[at].0);
        }
        lemma_lookup(shorter, at);
    }
}

/// A document with the fields of a stored configuration gives that
/// configuration back, whatever it is read over, but for intervals of nothing.
pub proof fn law_stored_config_comes_back(config: ConfigView, base: ConfigView, value: JsonView)
    requires
        forall|key: Seq<char>| #[trigger] value.get(key) == lookup(config.fields(), key),
    ensures
        base.overridden(value) == config.storable(),
{
    lemma_key_indices(config);
    let fields = config.fields();
    assert forall|i: int| 0 <= i < 18 implies value.get((#[trigger] fields[i]).0) == Some(
        fields[i].1,
    ) by {
        assert forall|j: int| i < j < fields.len() implies (#[trigger] fields[j]).0
            != fields[i].0 by {
            assert(key_index(fields[i].0) == i && key_index(fields[j].0) == j);
        }
        lemma_lookup(fields, i);
    }
    law_language_of_code(config.language);
    assert(fields[0].0 == "include_browser"@);
    assert(fields[1].0 == "include_github"@);
    assert(fields[2].0 == "include_gitlab"@);
    assert(fields[3].0 == "include_dockerhub"@);
    assert(fields[4].0 == "github_token"@);
    assert(fields[5].0 == "gitlab_token"@);
    assert(fields[6].0 == "github_api"@);
    assert(fields[7].0 == "gitlab_api"@);
    assert(fields[8].0 == "github_user"@);
    assert(fields[9].0 == "dockerhub_token"@);
    assert(fields[10].0 == "dockerhub_username"@);
    assert(fields[11].0 == "history_refresh_interval"@);
    assert(fields[12].0 == "github_refresh_interval"@);
    assert(fields[13].0 == "gitlab_refresh_interval"@);
    assert(fields[14].0 == "dockerhub_refresh_interval"@);
    assert(fields[15].0 == "preview_enabled"@);
    assert(fields[16].0 == "debug"@);
    assert(fields[17].0 == "language"@);
    assert(base.overridden(value) =~= config.storable());
}

// ---------------------------------------------------------------------------
// Overrides from the environment
// ---------------------------------------------------------------------------

/// The environment variables that the configuration reads, where they are set.
#[derive(Debug)]
pub struct Environment {
    pub github_token: Option<String>,
    pub gitlab_token: Option<String>,
    pub github_api: Option<String>,
    pub gitlab_api: Option<String>,
    pub github_user: Option<String>,
    pub dockerhub_token: Option<String>,
    pub dockerhub_username: Option<String>,
    pub history_refresh: Option<String>,
    pub github_refresh: Option<String>,
    pub gitlab_refresh: Option<String>,
    pub dockerhub_refresh: Option<String>,
    pub preview: Option<String>,
}

/// `found` where it is set, or `kept`.
pub open spec fn or_kept<T>(found: Option<T>, kept: Option<T>) -> Option<T> {
    match found {
        Some(_) => found,
        None => kept,
    }
}

/// The interval that a variable gives, or `kept`.
pub open spec fn interval_from(variable: Option<Seq<char>>, kept: u64) -> u64 {
    match variable {
        Some(text) => or(interval_of(text), kept),
        None => kept,
    }
}

/// The preview flag that a variable gives, or `kept`.
pub open spec fn preview_from(variable: Option<Seq<char>>, kept: bool) -> bool {
    match variable {
        Some(text) => or(preview_flag_of(text), kept),
        None => kept,
    }
}

impl ConfigView {
    /// The configuration after the environment has replaced what it sets.
    pub open spec fn in_environment(self, env: &Environment) -> ConfigView {
        ConfigView {
            github_token: or_kept(opt_text(env.github_token), self.github_token),
            gitlab_token: or_kept(opt_text(env.gitlab_token), self.gitlab_token),
            github_api: or(opt_text(env.github_api), self.github_api),
            gitlab_api: or(opt_text(env.gitlab_api), self.gitlab_api),
            github_user: or_kept(opt_text(env.github_user), self.github_user),
            dockerhub_token: or_kept(opt_text(env.dockerhub_token), self.dockerhub_token),
            dockerhub_username: or_kept(opt_text(env.dockerhub_username), self.dockerhub_username),
            history_refresh_interval: interval_from(
                opt_text(env.history_refresh),
                self.history_refresh_interval,
            ),
            github_refresh_interval: interval_from(
                opt_text(env.github_refresh),
                self.github_refresh_interval,
            ),
            gitlab_refresh_interval: interval_from(
                opt_text(env.gitlab_refresh),
                self.gitlab_refresh_interval,
            ),
            dockerhub_refresh_interval: interval_from(
                opt_text(env.dockerhub_refresh),
                self.dockerhub_refresh_interval,
            ),
            preview_enabled: preview_from(opt_text(env.preview), self.preview_enabled),
            ..self
        }
    }

    /// The configuration with the address of the GitLab interface completed.
    pub open spec fn with_normal_urls(self) -> ConfigView {
        ConfigView { gitlab_api: gitlab_api_of(self.gitlab_api), ..self }
    }
}

/// The configuration that a configuration file and the environment give. A
/// file that is missing or no JSON document changes nothing.
pub open spec fn loaded_config(file: Option<Seq<char>>, env: &Environment) -> ConfigView {
    let from_file = match file {
        Some(text) => match json_text(text) {
            Ok(value) => default_config().overridden(value),
            Err(_) => default_config(),
        },
        None => default_config(),
    };
    from_file.in_environment(env).with_normal_urls()
}

fn set_or_kept(found: &Option<String>, kept: &Option<String>) -> (r: Option<String>)
    ensures
        opt_text(r) == or_kept(opt_text(*found), opt_text(*kept)),
{
    match found {
        Some(t) => Some(t.clone()),
        None => copied(kept),
    }
}

fn set_or(found: &Option<String>, kept: &String) -> (r: String)
    ensures
        r@ == or(opt_text(*found), kept@),
{
    match found {
        Some(t) => t.clone(),
        None => kept.clone(),
    }
}

/// The interval that an environment variable gives, or the default.
fn refresh_interval_from_env(variable: &Option<String>, default: u64) -> (r: u64)
    ensures
        r == interval_from(opt_text(*variable), default),
{
    match variable {
        Some(text) => match parse_refresh_interval(text.as_str()) {
            Some(seconds) => seconds,
            None => default,
        },
        None => default,
    }
}

fn preview_flag_from_env(variable: &Option<String>, kept: bool) -> (r: bool)
    ensures
        r == preview_from(opt_text(*variable), kept),
{
    match variable {
        Some(text) => match parse_preview_flag(text.as_str()) {
            Some(flag) => flag,
            None => kept,
        },
        None => kept,
    }
}

impl Config {
    /// The configuration for a configuration file, where there is one, and an
    /// environment.
    pub fn load(file: Option<&str>, env: &Environment) -> (r: Self)
        ensures
            r@ == loaded_config(
                match file {
                    Some(text) => Some(text@),
                    None => None,
                },
                env,
            ),
    {
        let mut config = Config::default();
        if let Some(text) = file {
            config.apply_file_overrides(text);
        }
        config.apply_env_overrides(env);
        config.normalize_urls();
        config
    }

    /// Applies a configuration file; a text that is no JSON document changes
    /// nothing.
    pub fn apply_file_overrides(&mut self, text: &str)
        ensures
            final(self)@ == match json_text(text@) {
                Ok(value) => old(self)@.overridden(value),
                Err(_) => old(self)@,
            },
    {
        match parse_json(text) {
            Ok(value) => apply_json_overrides(self, &value),
            Err(_) => {},
        }
    }

    /// Applies the variables of the environment that are set.
    pub fn apply_env_overrides(&mut self, env: &Environment)
        ensures
            final(self)@ == old(self)@.in_environment(env),
    {
        self.github_token = set_or_kept(&env.github_token, &self.github_token);
        self.gitlab_token = set_or_kept(&env.gitlab_token, &self.gitlab_token);
        self.github_api = set_or(&env.github_api, &self.github_api);
        self.gitlab_api = set_or(&env.gitlab_api, &self.gitlab_api);
        self.github_user = set_or_kept(&env.github_user, &self.github_user);
        self.dockerhub_token = set_or_kept(&env.dockerhub_token, &self.dockerhub_token);
        self.dockerhub_username = set_or_kept(&env.dockerhub_username, &self.dockerhub_username);
        self.history_refresh_interval = refresh_interval_from_env(
            &env.history_refresh,
            self.history_refresh_interval,
        );
        self.github_refresh_interval = refresh_interval_from_env(
            &env.github_refresh,
            self.github_refresh_interval,
        );
        self.gitlab_refresh_interval = refresh_interval_from_env(
            &env.gitlab_refresh,
            self.gitlab_refresh_interval,
        );
        self.dockerhub_refresh_interval = refresh_interval_from_env(
            &env.dockerhub_refresh,
            self.dockerhub_refresh_interval,
        );
        self.preview_enabled = preview_flag_from_env(&env.preview, self.preview_enabled);
    }

    fn normalize_urls(&mut self)
        ensures
            final(self)@ == old(self)@.with_normal_urls(),
    {
        self.gitlab_api = normalize_gitlab_api_url(self.gitlab_api.as_str());
    }
}

// ---------------------------------------------------------------------------
// What holds of the single values
// ---------------------------------------------------------------------------

proof fn lemma_plain_digits(n: u64)
    ensures
        lowercase(decimal(n as nat)) == decimal(n as nat),
        trim(decimal(n as nat), Class::Space) == decimal(n as nat),
{
    let digits = decimal(n as nat);
    lemma_decimal_digits(n as nat);
    assert(is_digit(digits[0]));
    assert(is_digit(digits[digits.len() - 1]));
    assert forall|i: int| 0 <= i < digits.len() implies lower(digits[i]) == digits[i] by {
        assert(is_digit(digits[i]));
    }
    assert(lowercase(digits) =~= digits);
    lemma_trim_nothing(digits, Class::Space);
}

/// A positive number of seconds, written in decimal with or without an `s`,
/// is read as that interval; nothing is read as an interval of no seconds.
pub proof fn law_interval_of_decimal(n: u64)
    ensures
        n > 0 ==> interval_of(decimal(n as nat)) == Some(n),
        n > 0 ==> interval_of(decimal(n as nat) + "s"@) == Some(n),
        interval_of(decimal(0)) is None,
        forall|value: Seq<char>| #[trigger] interval_of(value) != Some(0u64),
{
    reveal_strlit("seconds");
    reveal_strlit("second");
    reveal_strlit("secs");
    reveal_strlit("sec");
    reveal_strlit("s");
    law_number_of_decimal(n);
    law_number_of_decimal(0);
    lemma_plain_digits(n);
    lemma_plain_digits(0);
    lemma_decimal_digits(n as nat);
    lemma_decimal_digits(0);
    let digits = decimal(n as nat);
    lemma_no_unit(digits);
    lemma_no_unit(decimal(0));
    let with_unit = digits + "s"@;
    assert(with_unit.last() == 's');
    lemma_trim_nothing(with_unit, Class::Space);
    assert(is_digit(with_unit[0])) by {
        assert(with_unit[0] == digits[0]);
    }
    assert(lowercase(with_unit) =~= with_unit) by {
        assert forall|i: int| 0 <= i < with_unit.len() implies lower(with_unit[i])
            == with_unit[i] by {
            if i < digits.len() {
                assert(is_digit(digits[i]));
            }
        }
    }
    let before = with_unit[with_unit.len() - 2];
    assert(before == digits[digits.len() - 1]);
    assert(is_digit(before));
    assert(!"seconds"@.is_suffix_of(with_unit)) by {
        if "seconds"@.is_suffix_of(with_unit) {
            assert("seconds"@[5] == with_unit.subrange(with_unit.len() - 7, with_unit.len() as int)[5]);
        }
    }
    assert(!"second"@.is_suffix_of(with_unit)) by {
        if "second"@.is_suffix_of(with_unit) {
            assert("second"@[5] == with_unit.subrange(with_unit.len() - 6, with_unit.len() as int)[5]);
        }
    }
    assert(!"secs"@.is_suffix_of(with_unit)) by {
        if "secs"@.is_suffix_of(with_unit) {
            assert("secs"@[2] == with_unit.subrange(with_unit.len() - 4, with_unit.len() as int)[2]);
        }
    }
    assert(!"sec"@.is_suffix_of(with_unit)) by {
        if "sec"@.is_suffix_of(with_unit) {
            assert("sec"@[2] == with_unit.subrange(with_unit.len() - 3, with_unit.len() as int)[2]);
        }
    }
    assert("s"@.is_suffix_of(with_unit)) by {
        assert("s"@ =~= with_unit.subrange(with_unit.len() - 1, with_unit.len() as int));
    }
    assert(without_unit(with_unit) =~= digits);
}

proof fn lemma_no_unit(digits: Seq<char>)
    requires
        digits.len() > 0,
        is_digit(digits.last()),
    ensures
        without_unit(digits) == digits,
{
    reveal_strlit("seconds");
    reveal_strlit("second");
    reveal_strlit("secs");
    reveal_strlit("sec");
    reveal_strlit("s");
    lemma_not_suffix("seconds"@, digits);
    lemma_not_suffix("second"@, digits);
    lemma_not_suffix("secs"@, digits);
    lemma_not_suffix("sec"@, digits);
    lemma_not_suffix("s"@, digits);
}

/// A text does not end with another whose last character is a different one.
pub proof fn lemma_not_suffix(suffix: Seq<char>, s: Seq<char>)
    requires
        suffix.len() > 0,
        s.len() > 0,
        suffix.last() != s.last(),
    ensures
        !suffix.is_suffix_of(s),
{
    if suffix.is_suffix_of(s) {
        assert(s.subrange(s.len() - suffix.len(), s.len() as int).last() == s.last());
    }
}

/// The completed address ends with `/api/v4`, and completing it again changes
/// nothing.
pub proof fn law_gitlab_api_normal_form(value: Seq<char>)
    ensures
        "/api/v4"@.is_suffix_of(gitlab_api_of(value)),
        gitlab_api_of(gitlab_api_of(value)) == gitlab_api_of(value),
{
    reveal_strlit("https://gitlab.com/api/v4");
    reveal_strlit("/api/v4");
    let cut = trim(value, Class::Space);
    let base = trim_end(cut, Class::Just('/'));
    lemma_trim_ends(value, Class::Space);
    lemma_trim_end(cut, Class::Just('/'));
    let url = gitlab_api_of(value);
    if base.len() == 0 {
        assert("/api/v4"@ =~= url.subrange(url.len() - 7, url.len() as int));
    } else {
        assert(base[0] == cut[0]);
        if !"/api/v4"@.is_suffix_of(base) {
            assert("/api/v4"@ =~= url.subrange(url.len() - 7, url.len() as int));
        }
        assert(url[0] == base[0]);
    }
    assert(url.subrange(url.len() - 7, url.len() as int).last() == url.last());
    assert(url.last() == '4');
    lemma_trim_nothing(url, Class::Space);
    assert(trim_end(url, Class::Just('/')) == url);
}

// ---------------------------------------------------------------------------
// Switches that change while the program runs
// ---------------------------------------------------------------------------

/// Which sources are switched on. The value is not shared: who has to see
/// later changes needs the same value, or another `snapshot` of it.
#[derive(Debug, PartialEq, Eq, Structural)]
pub struct RuntimeConfig {
    pub browser: bool,
    pub github: bool,
    pub gitlab: bool,
    pub dockerhub: bool,
}

/// The switches of a configuration.
pub open spec fn switches(config: ConfigView) -> RuntimeConfig {
    RuntimeConfig {
        browser: config.include_browser,
        github: config.include_github,
        gitlab: config.include_gitlab,
        dockerhub: config.include_dockerhub,
    }
}

impl RuntimeConfig {
    pub fn new(config: &Config) -> (r: Self)
        ensures
            r == switches(config@),
    {
        RuntimeConfig {
            browser: config.include_browser,
            github: config.include_github,
            gitlab: config.include_gitlab,
            dockerhub: config.include_dockerhub,
        }
    }

    /// The switches as they are now. Changes that come later do not show in it.
    pub fn snapshot(&self) -> (r: RuntimeConfig)
        ensures
            r == *self,
    {
        RuntimeConfig {
            browser: self.browser,
            github: self.github,
            gitlab: self.gitlab,
            dockerhub: self.dockerhub,
        }
    }

    pub fn include_browser(&self) -> (r: bool)
        ensures
            r == self.browser,
    {
        self.browser
    }

    pub fn include_github(&self) -> (r: bool)
        ensures
            r == self.github,
    {
        self.github
    }

    pub fn include_gitlab(&self) -> (r: bool)
        ensures
            r == self.gitlab,
    {
        self.gitlab
    }

    pub fn include_dockerhub(&self) -> (r: bool)
        ensures
            r == self.dockerhub,
    {
        self.dockerhub
    }

    pub fn set_include_browser(&mut self, value: bool)
        ensures
            *final(self) == (RuntimeConfig { browser: value, ..*old(self) }),
    {
        self.browser = value;
    }

    pub fn set_include_github(&mut self, value: bool)
        ensures
            *final(self) == (RuntimeConfig { github: value, ..*old(self) }),
    {
        self.github = value;
    }

    pub fn set_include_gitlab(&mut self, value: bool)
        ensures
            *final(self) == (RuntimeConfig { gitlab: value, ..*old(self) }),
    {
        self.gitlab = value;
    }

    pub fn set_include_dockerhub(&mut self, value: bool)
        ensures
            *final(self) == (RuntimeConfig { dockerhub: value, ..*old(self) }),
    {
        self.dockerhub = value;
    }
}

} // verus!
