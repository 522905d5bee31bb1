//! What holds of the configuration, from wherever it comes.
use crate::args::invoked;
use crate::config::{default_config, gitlab_api_of, interval_of, language_of, loaded_config};
use crate::config::{preview_flag_of, switches, without_unit, ConfigView, Environment, Language};
use crate::config::{law_interval_of_decimal, lemma_not_suffix};
use crate::json::{json_text, JsonView};
use crate::text::{decimal, is_digit, law_number_of_decimal, lemma_decimal_digits, lower};
use crate::text::{lemma_trim_nothing, lowercase, trim, trim_end, Class};
use vstd::prelude::*;
use vstd::string::*;

verus! {

// ---------------------------------------------------------------------------
// Files, the environment, defaults
// ---------------------------------------------------------------------------

/// Where nothing is configured, all sources are on, the public services are
/// asked, without tokens and names, the browsers are looked at every five
/// seconds and the services every minute.
pub proof fn law_defaults()
    ensures
        ({
            let c = default_config();
            &&& c.include_browser && c.include_github && c.include_gitlab && c.include_dockerhub
            &&& c.github_token is None && c.gitlab_token is None && c.dockerhub_token is None
            &&& c.github_user is None && c.dockerhub_username is None
            &&& c.github_api == "https://api.github.com"@
            &&& c.gitlab_api == "https://gitlab.com/api/v4"@
            &&& c.history_refresh_interval == 5
            &&& c.github_refresh_interval == 60
            &&& c.gitlab_refresh_interval == 60
            &&& c.dockerhub_refresh_interval == 60
            &&& !c.preview_enabled && !c.debug
            &&& c.language == Language::English
        }),
{
}


/// A field of a configuration file sets what it is named after, where it has
/// the right type; any other field leaves that as it was. An interval is at
/// least a second.
pub proof fn law_file_sets_what_it_names(config: ConfigView, file: JsonView)
    ensures
        ({
            let c = config.overridden(file);
            &&& match file.get("include_browser"@) {
                Some(JsonView::Bool(b)) => c.include_browser == b,
                _ => c.include_browser == config.include_browser,
            }
            &&& match file.get("include_github"@) {
                Some(JsonView::Bool(b)) => c.include_github == b,
                _ => c.include_github == config.include_github,
            }
            &&& match file.get("include_gitlab"@) {
                Some(JsonView::Bool(b)) => c.include_gitlab == b,
                _ => c.include_gitlab == config.include_gitlab,
            }
            &&& match file.get("include_dockerhub"@) {
                Some(JsonView::Bool(b)) => c.include_dockerhub == b,
                _ => c.include_dockerhub == config.include_dockerhub,
            }
            &&& match file.get("preview_enabled"@) {
                Some(JsonView::Bool(b)) => c.preview_enabled == b,
                _ => c.preview_enabled == config.preview_enabled,
            }
            &&& match file.get("debug"@) {
                Some(JsonView::Bool(b)) => c.debug == b,
                _ => c.debug == config.debug,
            }
            &&& match file.get("github_token"@) {
                Some(JsonView::Text(t)) => c.github_token == Some(t),
                Some(JsonView::Null) => c.github_token is None,
                _ => c.github_token == config.github_token,
            }
            &&& match file.get("gitlab_token"@) {
                Some(JsonView::Text(t)) => c.gitlab_token == Some(t),
                Some(JsonView::Null) => c.gitlab_token is None,
                _ => c.gitlab_token == config.gitlab_token,
            }
            &&& match file.get("github_user"@) {
                Some(JsonView::Text(t)) => c.github_user == Some(t),
                Some(JsonView::Null) => c.github_user is None,
                _ => c.github_user == config.github_user,
            }
            &&& match file.get("dockerhub_token"@) {
                Some(JsonView::Text(t)) => c.dockerhub_token == Some(t),
                Some(JsonView::Null) => c.dockerhub_token is None,
                _ => c.dockerhub_token == config.dockerhub_token,
            }
            &&& match file.get("dockerhub_username"@) {
                Some(JsonView::Text(t)) => c.dockerhub_username == Some(t),
                Some(JsonView::Null) => c.dockerhub_username is None,
                _ => c.dockerhub_username == config.dockerhub_username,
            }
            &&& match file.get("github_api"@) {
                Some(JsonView::Text(t)) => c.github_api == t,
                _ => c.github_api == config.github_api,
            }
            &&& match file.get("gitlab_api"@) {
                Some(JsonView::Text(t)) => c.gitlab_api == t,
                _ => c.gitlab_api == config.gitlab_api,
            }
            &&& match file.get("history_refresh_interval"@) {
                Some(JsonView::Number(Some(n))) => c.history_refresh_interval == (if n == 0 {
                    1
                } else {
                    n
                }),
                _ => c.history_refresh_interval == config.history_refresh_interval,
            }
            &&& match file.get("github_refresh_interval"@) {
                Some(JsonView::Number(Some(n))) => c.github_refresh_interval == (if n == 0 {
                    1
                } else {
                    n
                }),
                _ => c.github_refresh_interval == config.github_refresh_interval,
            }
            &&& match file.get("gitlab_refresh_interval"@) {
                Some(JsonView::Number(Some(n))) => c.gitlab_refresh_interval == (if n == 0 {
                    1
                } else {
                    n
                }),
                _ => c.gitlab_refresh_interval == config.gitlab_refresh_interval,
            }
            &&& match file.get("dockerhub_refresh_interval"@) {
                Some(JsonView::Number(Some(n))) => c.dockerhub_refresh_interval == (if n == 0 {
                    1
                } else {
                    n
                }),
                _ => c.dockerhub_refresh_interval == config.dockerhub_refresh_interval,
            }
            &&& match file.get("language"@) {
                Some(JsonView::Text(t)) => c.language == (match language_of(t) {
                    Some(language) => language,
                    None => config.language,
                }),
                _ => c.language == config.language,
            }
        }),
{
}

/// A variable of the environment sets what it is for, and wins over the file
/// and the default. An interval or a flag that cannot be read sets nothing.
pub proof fn law_environment_sets_what_it_names(config: ConfigView, env: &Environment)
    ensures
        ({
            let c = config.in_environment(env);
            &&& match env.github_token {
                Some(t) => c.github_token == Some(t@),
                None => c.github_token == config.github_token,
            }
            &&& match env.gitlab_token {
                Some(t) => c.gitlab_token == Some(t@),
                None => c.gitlab_token == config.gitlab_token,
            }
            &&& match env.github_user {
                Some(t) => c.github_user == Some(t@),
                None => c.github_user == config.github_user,
            }
            &&& match env.dockerhub_token {
                Some(t) => c.dockerhub_token == Some(t@),
                None => c.dockerhub_token == config.dockerhub_token,
            }
            &&& match env.dockerhub_username {
                Some(t) => c.dockerhub_username == Some(t@),
                None => c.dockerhub_username == config.dockerhub_username,
            }
            &&& match env.github_api {
                Some(t) => c.github_api == t@,
                None => c.github_api == config.github_api,
            }
            &&& match env.gitlab_api {
                Some(t) => c.gitlab_api == t@,
                None => c.gitlab_api == config.gitlab_api,
            }
            &&& match env.history_refresh {
                Some(t) => c.history_refresh_interval == (match interval_of(t@) {
                    Some(n) => n,
                    None => config.history_refresh_interval,
                }),
                None => c.history_refresh_interval == config.history_refresh_interval,
            }
            &&& match env.github_refresh {
                Some(t) => c.github_refresh_interval == (match interval_of(t@) {
                    Some(n) => n,
                    None => config.github_refresh_interval,
                }),
                None => c.github_refresh_interval == config.github_refresh_interval,
            }
            &&& match env.gitlab_refresh {
                Some(t) => c.gitlab_refresh_interval == (match interval_of(t@) {
                    Some(n) => n,
                    None => config.gitlab_refresh_interval,
                }),
                None => c.gitlab_refresh_interval == config.gitlab_refresh_interval,
            }
            &&& match env.dockerhub_refresh {
                Some(t) => c.dockerhub_refresh_interval == (match interval_of(t@) {
                    Some(n) => n,
                    None => config.dockerhub_refresh_interval,
                }),
                None => c.dockerhub_refresh_interval == config.dockerhub_refresh_interval,
            }
            &&& match env.preview {
                Some(t) => c.preview_enabled == (match preview_flag_of(t@) {
                    Some(on) => on,
                    None => config.preview_enabled,
                }),
                None => c.preview_enabled == config.preview_enabled,
            }
            &&& c.include_browser == config.include_browser
            &&& c.include_github == config.include_github
            &&& c.include_gitlab == config.include_gitlab
            &&& c.include_dockerhub == config.include_dockerhub
            &&& c.debug == config.debug
            &&& c.language == config.language
        }),
{
}

/// The environment wins over the file, and the file over the defaults. A file
/// that is missing or is no document counts for nothing.
pub proof fn law_precedence(text: Seq<char>, env: &Environment)
    ensures
        ({
            let c = loaded_config(Some(text), env);
            let base = match json_text(text) {
                Ok(file) => default_config().overridden(file),
                Err(_) => default_config(),
            };
            &&& c.github_token == (match env.github_token {
                Some(t) => Some(t@),
                None => base.github_token,
            })
            &&& c.gitlab_token == (match env.gitlab_token {
                Some(t) => Some(t@),
                None => base.gitlab_token,
            })
            &&& c.github_user == (match env.github_user {
                Some(t) => Some(t@),
                None => base.github_user,
            })
            &&& c.dockerhub_token == (match env.dockerhub_token {
                Some(t) => Some(t@),
                None => base.dockerhub_token,
            })
            &&& c.dockerhub_username == (match env.dockerhub_username {
                Some(t) => Some(t@),
                None => base.dockerhub_username,
            })
            &&& c.github_api == (match env.github_api {
                Some(t) => t@,
                None => base.github_api,
            })
            &&& c.gitlab_api == gitlab_api_of(
                match env.gitlab_api {
                    Some(t) => t@,
                    None => base.gitlab_api,
                },
            )
            &&& env.history_refresh is None ==> c.history_refresh_interval == base.history_refresh_interval
            &&& env.github_refresh is None ==> c.github_refresh_interval == base.github_refresh_interval
            &&& env.gitlab_refresh is None ==> c.gitlab_refresh_interval == base.gitlab_refresh_interval
            &&& env.dockerhub_refresh is None ==> c.dockerhub_refresh_interval == base.dockerhub_refresh_interval
            &&& env.preview is None ==> c.preview_enabled == base.preview_enabled
            &&& c.include_browser == base.include_browser
            &&& c.include_github == base.include_github
            &&& c.include_gitlab == base.include_gitlab
            &&& c.include_dockerhub == base.include_dockerhub
            &&& c.debug == base.debug
            &&& c.language == base.language
            &&& json_text(text) is Err ==> c == loaded_config(None, env)
        }),
{
}

// ---------------------------------------------------------------------------
// Single values
// ---------------------------------------------------------------------------

/// The address of a GitLab server is kept, without white space and slashes at
/// its ends, and completed where it does not end with the path of the
/// interface. Without an address it is that of the public server.
pub proof fn law_gitlab_api_keeps_the_server(value: Seq<char>)
    ensures
        ({
            let base = trim_end(trim(value, Class::Space), Class::Just('/'));
            &&& base.len() == 0 ==> gitlab_api_of(value) == "https://gitlab.com/api/v4"@
            &&& base.len() > 0 ==> base.is_prefix_of(gitlab_api_of(value))
            &&& base.len() > 0 && "/api/v4"@.is_suffix_of(base) ==> gitlab_api_of(value) == base
            &&& base.len() > 0 && !"/api/v4"@.is_suffix_of(base) ==> gitlab_api_of(value) == base
                + "/api/v4"@
        }),
{
    let base = trim_end(trim(value, Class::Space), Class::Just('/'));
    assert(base =~= (base + "/api/v4"@).take(base.len() as int));
    assert(base =~= base.take(base.len() as int));
}

proof fn lemma_units()
    ensures
        "seconds"@ == seq!['s', 'e', 'c', 'o', 'n', 'd', 's'],
        "second"@ == seq!['s', 'e', 'c', 'o', 'n', 'd'],
        "secs"@ == seq!['s', 'e', 'c', 's'],
        "sec"@ == seq!['s', 'e', 'c'],
        "s"@ == seq!['s'],
{
    reveal_strlit("seconds");
    reveal_strlit("second");
    reveal_strlit("secs");
    reveal_strlit("sec");
    reveal_strlit("s");
    assert("seconds"@ =~= seq!['s', 'e', 'c', 'o', 'n', 'd', 's']);
    assert("second"@ =~= seq!['s', 'e', 'c', 'o', 'n', 'd']);
    assert("secs"@ =~= seq!['s', 'e', 'c', 's']);
    assert("sec"@ =~= seq!['s', 'e', 'c']);
    assert("s"@ =~= seq!['s']);
}

#[verifier::spinoff_prover]
proof fn lemma_unit_is_cut(digits: Seq<char>, unit: Seq<char>)
    requires
        unit == "sec"@ || unit == "secs"@ || unit == "second"@ || unit == "seconds"@,
    ensures
        without_unit(digits + unit) == digits,
{
    lemma_units();
    let x = digits + unit;
    let n = x.len() as int;
    assert(unit =~= x.subrange(n - unit.len(), n));
    assert(x.last() == unit.last());
    assert(unit.is_suffix_of(x));
    assert(x.take(n - unit.len()) =~= digits);
    if unit == "second"@ || unit == "sec"@ {
        lemma_not_suffix("seconds"@, x);
        lemma_not_suffix("secs"@, x);
    }
    if unit == "sec"@ || unit == "secs"@ {
        lemma_not_suffix("second"@, x);
    }
    if unit == "secs"@ {
        assert(x[n - 2] == 'c');
        if "seconds"@.is_suffix_of(x) {
            assert("seconds"@[5] == x.subrange(n - 7, n)[5]);
        }
    }
}

#[verifier::spinoff_prover]
proof fn lemma_unit_is_plain(digits: Seq<char>, unit: Seq<char>)
    requires
        digits.len() > 0,
        forall|i: int| 0 <= i < digits.len() ==> is_digit(#[trigger] digits[i]),
        unit == "sec"@ || unit == "secs"@ || unit == "second"@ || unit == "seconds"@,
    ensures
        trim(digits + unit, Class::Space) == digits + unit,
        lowercase(digits + unit) == digits + unit,
        trim(digits, Class::Space) == digits,
{
    lemma_units();
    let x = digits + unit;
    assert(x[0] == digits[0] && x.last() == unit.last());
    assert(is_digit(digits[0]) && is_digit(digits[digits.len() - 1]));
    lemma_trim_nothing(x, Class::Space);
    lemma_trim_nothing(digits, Class::Space);
    assert forall|i: int| 0 <= i < x.len() implies lower(x[i]) == x[i] by {
        if i < digits.len() {
            assert(is_digit(digits[i]));
        } else {
            assert(x[i] == unit[i - digits.len()]);
        }
    }
    assert(lowercase(x) =~= x);
}

/// An interval may have any of the units of seconds behind its number.
pub proof fn law_interval_units(n: u64, unit: Seq<char>)
    requires
        n > 0,
        unit == "s"@ || unit == "sec"@ || unit == "secs"@ || unit == "second"@ || unit
            == "seconds"@ || unit.len() == 0,
    ensures
        interval_of(decimal(n as nat) + unit) == Some(n),
{
    law_interval_of_decimal(n);
    let digits = decimal(n as nat);
    if unit.len() == 0 {
        assert(digits + unit =~= digits);
    } else if unit != "s"@ {
        law_number_of_decimal(n);
        lemma_decimal_digits(n as nat);
        lemma_unit_is_plain(digits, unit);
        lemma_unit_is_cut(digits, unit);
    }
}

/// The words that switch the preview on and off, in whatever case.
pub proof fn law_preview_words(value: Seq<char>)
    ensures
        ({
            let word = lowercase(value);
            &&& preview_flag_of(value) == Some(true) <==> word == "1"@ || word == "true"@ || word
                == "yes"@ || word == "on"@
            &&& preview_flag_of(value) == Some(false) <==> word == "0"@ || word == "false"@ || word
                == "no"@ || word == "off"@
        }),
{
    reveal_strlit("1");
    reveal_strlit("true");
    reveal_strlit("yes");
    reveal_strlit("on");
    reveal_strlit("0");
    reveal_strlit("false");
    reveal_strlit("no");
    reveal_strlit("off");
    assert("0"@[0] != "1"@[0]);
    assert("no"@[0] != "on"@[0]);
    assert("off"@[0] != "yes"@[0]);
    assert("true"@.len() == 4 && "false"@.len() == 5);
    assert("yes"@.len() == 3 && "off"@.len() == 3);
    assert("no"@.len() == 2 && "on"@.len() == 2);
    assert("0"@.len() == 1 && "1"@.len() == 1);
}

/// A language is named by its code or its English name, in whatever case and
/// with white space around it.
pub proof fn law_language_names(value: Seq<char>)
    ensures
        ({
            let name = lowercase(trim(value, Class::Space));
            &&& name == "en"@ || name == "english"@ ==> language_of(value) == Some(
                Language::English,
            )
            &&& name == "zh"@ || name == "zh-cn"@ || name == "zh-hans"@ || name == "chinese"@
                ==> language_of(value) == Some(Language::Chinese)
            &&& name == "ja"@ || name == "japanese"@ ==> language_of(value) == Some(
                Language::Japanese,
            )
            &&& name == "ko"@ || name == "korean"@ ==> language_of(value) == Some(Language::Korean)
            &&& name == "fr"@ || name == "french"@ ==> language_of(value) == Some(Language::French)
            &&& name == "ru"@ || name == "russian"@ ==> language_of(value) == Some(
                Language::Russian,
            )
            &&& language_of(value) is Some ==> name == "en"@ || name == "english"@ || name == "zh"@
                || name == "zh-cn"@ || name == "zh-hans"@ || name == "chinese"@ || name == "ja"@
                || name == "japanese"@ || name == "ko"@ || name == "korean"@ || name == "fr"@
                || name == "french"@ || name == "ru"@ || name == "russian"@
        }),
{
    reveal_strlit("en");
    reveal_strlit("zh");
    reveal_strlit("ja");
    reveal_strlit("ko");
    reveal_strlit("fr");
    reveal_strlit("ru");
    reveal_strlit("english");
    reveal_strlit("zh-cn");
    reveal_strlit("zh-hans");
    reveal_strlit("chinese");
    reveal_strlit("japanese");
    reveal_strlit("korean");
    reveal_strlit("french");
    reveal_strlit("russian");
    let name = lowercase(trim(value, Class::Space));
    assert("en"@.len() == 2 && "en"@[0] == 'e');
    assert("zh"@.len() == 2 && "zh"@[0] == 'z');
    assert("ja"@.len() == 2 && "ja"@[0] == 'j');
    assert("ko"@.len() == 2 && "ko"@[0] == 'k');
    assert("fr"@.len() == 2 && "fr"@[0] == 'f');
    assert("ru"@.len() == 2 && "ru"@[0] == 'r');
    assert("english"@[0] == 'e' && "chinese"@[0] == 'c' && "japanese"@[0] == 'j');
    assert("korean"@[0] == 'k' && "french"@[0] == 'f' && "russian"@[0] == 'r');
    assert("zh-cn"@[0] == 'z' && "zh-hans"@[0] == 'z');
}

/// Each source is switched on where the configuration takes it in.
pub proof fn law_switches_of_config(config: ConfigView)
    ensures
        switches(config).browser == config.include_browser,
        switches(config).github == config.include_github,
        switches(config).gitlab == config.include_gitlab,
        switches(config).dockerhub == config.include_dockerhub,
{
}

// ---------------------------------------------------------------------------
// The command line
// ---------------------------------------------------------------------------

proof fn lemma_flag_names()
    ensures
        "--no-browser"@.len() == 12 && "--no-browser"@[2] == 'n',
        "--no-github"@.len() == 11 && "--no-github"@[8] == 'h',
        "--no-gitlab"@.len() == 11 && "--no-gitlab"@[8] == 'l',
        "--no-dockerhub"@.len() == 14 && "--no-dockerhub"@[2] == 'n',
        "--debug"@.len() == 7,
        "--github-token"@.len() == 14 && "--github-token"@[2] == 'g' && "--github-token"@[5]
            == 'h',
        "--gitlab-token"@.len() == 14 && "--gitlab-token"@[2] == 'g' && "--gitlab-token"@[5]
            == 'l',
        "--github-user"@.len() == 13,
        "--dockerhub-token"@.len() == 17,
        "--dockerhub-user"@.len() == 16,
        "--github-api"@.len() == 12 && "--github-api"@[2] == 'g' && "--github-api"@[5] == 'h',
        "--gitlab-api"@.len() == 12 && "--gitlab-api"@[2] == 'g' && "--gitlab-api"@[5] == 'l',
        "--help"@.len() == 6,
        "-h"@.len() == 2,
{
    reveal_strlit("--no-browser");
    reveal_strlit("--no-github");
    reveal_strlit("--no-gitlab");
    reveal_strlit("--no-dockerhub");
    reveal_strlit("--debug");
    reveal_strlit("--github-token");
    reveal_strlit("--gitlab-token");
    reveal_strlit("--github-user");
    reveal_strlit("--dockerhub-token");
    reveal_strlit("--dockerhub-user");
    reveal_strlit("--github-api");
    reveal_strlit("--gitlab-api");
    reveal_strlit("--help");
    reveal_strlit("-h");
}

/// A flag switches off the source that it names, or the debugging output on;
/// then the rest of the command line is read.
pub proof fn law_flags(config: ConfigView, rest: Seq<Seq<char>>)
    ensures
        invoked(config, seq!["--no-browser"@] + rest) == invoked(
            ConfigView { include_browser: false, ..config },
            rest,
        ),
        invoked(config, seq!["--no-github"@] + rest) == invoked(
            ConfigView { include_github: false, ..config },
            rest,
        ),
        invoked(config, seq!["--no-gitlab"@] + rest) == invoked(
            ConfigView { include_gitlab: false, ..config },
            rest,
        ),
        invoked(config, seq!["--no-dockerhub"@] + rest) == invoked(
            ConfigView { include_dockerhub: false, ..config },
            rest,
        ),
        invoked(config, seq!["--debug"@] + rest) == invoked(
            ConfigView { debug: true, ..config },
            rest,
        ),
        invoked(config, seq![]) == Ok::<Option<ConfigView>, Seq<char>>(Some(config)),
{
    lemma_flag_names();
    assert((seq!["--no-browser"@] + rest)[0] == "--no-browser"@);
    assert((seq!["--no-browser"@] + rest).drop_first() =~= rest);
    assert((seq!["--no-github"@] + rest)[0] == "--no-github"@);
    assert((seq!["--no-github"@] + rest).drop_first() =~= rest);
    assert((seq!["--no-gitlab"@] + rest)[0] == "--no-gitlab"@);
    assert((seq!["--no-gitlab"@] + rest).drop_first() =~= rest);
    assert((seq!["--no-dockerhub"@] + rest)[0] == "--no-dockerhub"@);
    assert((seq!["--no-dockerhub"@] + rest).drop_first() =~= rest);
    assert((seq!["--debug"@] + rest)[0] == "--debug"@);
    assert((seq!["--debug"@] + rest).drop_first() =~= rest);
}

/// An option sets what it names to the value behind it; then the rest of the
/// command line is read.
#[verifier::rlimit(30)]
pub proof fn law_options(config: ConfigView, value: Seq<char>, rest: Seq<Seq<char>>)
    ensures
        invoked(config, seq!["--github-token"@, value] + rest) == invoked(
            ConfigView { github_token: Some(value), ..config },
            rest,
        ),
        invoked(config, seq!["--gitlab-token"@, value] + rest) == invoked(
            ConfigView { gitlab_token: Some(value), ..config },
            rest,
        ),
        invoked(config, seq!["--github-user"@, value] + rest) == invoked(
            ConfigView { github_user: Some(value), ..config },
            rest,
        ),
        invoked(config, seq!["--dockerhub-token"@, value] + rest) == invoked(
            ConfigView { dockerhub_token: Some(value), ..config },
            rest,
        ),
        invoked(config, seq!["--dockerhub-user"@, value] + rest) == invoked(
            ConfigView { dockerhub_username: Some(value), ..config },
            rest,
        ),
        invoked(config, seq!["--github-api"@, value] + rest) == invoked(
            ConfigView { github_api: value, ..config },
            rest,
        ),
        invoked(config, seq!["--gitlab-api"@, value] + rest) == invoked(
            ConfigView { gitlab_api: value, ..config },
            rest,
        ),
{
    lemma_flag_names();
    lemma_two(seq!["--github-token"@, value], rest);
    lemma_two(seq!["--gitlab-token"@, value], rest);
    lemma_two(seq!["--github-user"@, value], rest);
    lemma_two(seq!["--dockerhub-token"@, value], rest);
    lemma_two(seq!["--dockerhub-user"@, value], rest);
    lemma_two(seq!["--github-api"@, value], rest);
    lemma_two(seq!["--gitlab-api"@, value], rest);
}

proof fn lemma_two(two: Seq<Seq<char>>, rest: Seq<Seq<char>>)
    requires
        two.len() == 2,
    ensures
        (two + rest)[0] == two[0],
        (two + rest).drop_first().len() > 0,
        (two + rest).drop_first()[0] == two[1],
        (two + rest).drop_first().drop_first() == rest,
{
    assert((two + rest).drop_first().drop_first() =~= rest);
}

/// A wish for help is granted whatever follows it, and an argument that is not
/// known is an error that names it.
pub proof fn law_help_and_errors(config: ConfigView, arg: Seq<char>, rest: Seq<Seq<char>>)
    ensures
        arg == "--help"@ || arg == "-h"@ ==> invoked(config, seq![arg] + rest) == Ok::<
            Option<ConfigView>,
            Seq<char>,
        >(None),
        !known(arg) ==> invoked(config, seq![arg] + rest) == Err::<Option<ConfigView>, Seq<char>>(
            "unknown argument: "@ + arg,
        ),
        arg == "--github-api"@ || arg == "--gitlab-api"@ ==> invoked(config, seq![arg]) == Err::<
            Option<ConfigView>,
            Seq<char>,
        >(arg + " requires a value"@),
{
    lemma_flag_names();
    assert((seq![arg] + rest)[0] == arg);
    assert(seq![arg][0] == arg);
}

/// Whether an argument is a flag or an option of the program.
pub open spec fn known(arg: Seq<char>) -> bool {
    ||| arg == "--no-browser"@
    ||| arg == "--no-github"@
    ||| arg == "--no-gitlab"@
    ||| arg == "--no-dockerhub"@
    ||| arg == "--debug"@
    ||| arg == "--github-token"@
    ||| arg == "--gitlab-token"@
    ||| arg == "--github-user"@
    ||| arg == "--dockerhub-token"@
    ||| arg == "--dockerhub-user"@
    ||| arg == "--github-api"@
    ||| arg == "--gitlab-api"@
    ||| arg == "--help"@
    ||| arg == "-h"@
}

/// An option at the end of the command line that has no value takes back what
/// was set.
pub proof fn law_options_without_value(config: ConfigView)
    ensures
        invoked(config, seq!["--github-token"@]) == Ok::<Option<ConfigView>, Seq<char>>(
            Some(ConfigView { github_token: None, ..config }),
        ),
        invoked(config, seq!["--gitlab-token"@]) == Ok::<Option<ConfigView>, Seq<char>>(
            Some(ConfigView { gitlab_token: None, ..config }),
        ),
        invoked(config, seq!["--github-user"@]) == Ok::<Option<ConfigView>, Seq<char>>(
            Some(ConfigView { github_user: None, ..config }),
        ),
        invoked(config, seq!["--dockerhub-token"@]) == Ok::<Option<ConfigView>, Seq<char>>(
            Some(ConfigView { dockerhub_token: None, ..config }),
        ),
        invoked(config, seq!["--dockerhub-user"@]) == Ok::<Option<ConfigView>, Seq<char>>(
            Some(ConfigView { dockerhub_username: None, ..config }),
        ),
{
    lemma_flag_names();
    lemma_alone("--github-token"@);
    lemma_alone("--gitlab-token"@);
    lemma_alone("--github-user"@);
    lemma_alone("--dockerhub-token"@);
    lemma_alone("--dockerhub-user"@);
    reveal_with_fuel(invoked, 2);
}

proof fn lemma_alone(arg: Seq<char>)
    ensures
        seq![arg][0] == arg,
        seq![arg].drop_first() == Seq::<Seq<char>>::empty(),
{
    assert(seq![arg].drop_first() =~= Seq::<Seq<char>>::empty());
}

} // verus!
