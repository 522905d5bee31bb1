//! The command line.
use crate::config::{Config, ConfigView};
use crate::text::{glue, opt_text, same, texts};
use vstd::prelude::*;
use vstd::string::*;

verus! {

/// What the command line asks for.
#[derive(Debug)]
pub enum Invocation {
    /// Run with this configuration.
    Run(Config),
    /// Show the help text and leave.
    Help,
}

/// A flag that stands alone.
pub open spec fn with_flag(config: ConfigView, arg: Seq<char>) -> Option<ConfigView> {
    if arg == "--no-browser"@ {
        Some(ConfigView { include_browser: false, ..config })
    } else if arg == "--no-github"@ {
        Some(ConfigView { include_github: false, ..config })
    } else if arg == "--no-gitlab"@ {
        Some(ConfigView { include_gitlab: false, ..config })
    } else if arg == "--no-dockerhub"@ {
        Some(ConfigView { include_dockerhub: false, ..config })
    } else if arg == "--debug"@ {
        Some(ConfigView { debug: true, ..config })
    } else {
        None
    }
}

/// An option whose value may be missing: it is then taken back.
pub open spec fn with_option(
    config: ConfigView,
    arg: Seq<char>,
    value: Option<Seq<char>>,
) -> Option<ConfigView> {
    if arg == "--github-token"@ {
        Some(ConfigView { github_token: value, ..config })
    } else if arg == "--gitlab-token"@ {
        Some(ConfigView { gitlab_token: value, ..config })
    } else if arg == "--github-user"@ {
        Some(ConfigView { github_user: value, ..config })
    } else if arg == "--dockerhub-token"@ {
        Some(ConfigView { dockerhub_token: value, ..config })
    } else if arg == "--dockerhub-user"@ {
        Some(ConfigView { dockerhub_username: value, ..config })
    } else {
        None
    }
}

/// An option that needs a value.
pub open spec fn with_address(config: ConfigView, arg: Seq<char>, value: Seq<char>) -> Option<
    ConfigView,
> {
    if arg == "--github-api"@ {
        Some(ConfigView { github_api: value, ..config })
    } else if arg == "--gitlab-api"@ {
        Some(ConfigView { gitlab_api: value, ..config })
    } else {
        None
    }
}

/// What a command line makes of a configuration: a new configuration, the
/// wish for help (`None`), or an error. It is read from left to right, and
/// help or an error ends the reading.
pub open spec fn invoked(config: ConfigView, args: Seq<Seq<char>>) -> Result<
    Option<ConfigView>,
    Seq<char>,
>
    decreases args.len(),
{
    if args.len() == 0 {
        Ok(Some(config))
    } else {
        let arg = args[0];
        let rest = args.drop_first();
        let value = if rest.len() > 0 {
            Some(rest[0])
        } else {
            None
        };
        let behind = if rest.len() > 0 {
            rest.drop_first()
        } else {
            rest
        };
        if with_flag(config, arg) is Some {
            invoked(with_flag(config, arg)->0, rest)
        } else if with_option(config, arg, value) is Some {
            invoked(with_option(config, arg, value)->0, behind)
        } else if with_address(config, arg, seq![]) is Some {
            match value {
                Some(address) => invoked(with_address(config, arg, address)->0, behind),
                None => Err(arg + " requires a value"@),
            }
        } else if arg == "--help"@ || arg == "-h"@ {
            Ok(None)
        } else {
            Err("unknown argument: "@ + arg)
        }
    }
}

pub open spec fn invocation_view(r: Result<Invocation, String>) -> Result<
    Option<ConfigView>,
    Seq<char>,
> {
    match r {
        Ok(Invocation::Run(config)) => Ok(Some(config@)),
        Ok(Invocation::Help) => Ok(None),
        Err(err) => Err(err@),
    }
}

fn apply_flag(config: &mut Config, arg: &str) -> (r: bool)
    ensures
        r == with_flag(old(config)@, arg@) is Some,
        final(config)@ == (if r {
            with_flag(old(config)@, arg@)->0
        } else {
            old(config)@
        }),
{
    if same(arg, "--no-browser") {
        config.include_browser = false;
    } else if same(arg, "--no-github") {
        config.include_github = false;
    } else if same(arg, "--no-gitlab") {
        config.include_gitlab = false;
    } else if same(arg, "--no-dockerhub") {
        config.include_dockerhub = false;
    } else if same(arg, "--debug") {
        config.debug = true;
    } else {
        return false;
    }
    true
}

fn apply_option(config: &mut Config, arg: &str, value: Option<String>) -> (r: bool)
    ensures
        r == with_option(old(config)@, arg@, opt_text(value)) is Some,
        final(config)@ == (if r {
            with_option(old(config)@, arg@, opt_text(value))->0
        } else {
            old(config)@
        }),
{
    if same(arg, "--github-token") {
        config.github_token = value;
    } else if same(arg, "--gitlab-token") {
        config.gitlab_token = value;
    } else if same(arg, "--github-user") {
        config.github_user = value;
    } else if same(arg, "--dockerhub-token") {
        config.dockerhub_token = value;
    } else if same(arg, "--dockerhub-user") {
        config.dockerhub_username = value;
    } else {
        return false;
    }
    true
}

/// Reads the command line.
pub fn parse_args(config: Config, args: &Vec<String>) -> (r: Result<Invocation, String>)
    ensures
        invocation_view(r) == invoked(config@, texts(args@)),
{
    let ghost all = texts(args@);
    let ghost goal = invoked(config@, all);
    let ghost start = config@;
    let mut current = config;
    let n: usize = args.len();
    let mut i: usize = 0;
    assert(all.skip(0) =~= all);
    while i < n
        invariant
            all == texts(args@),
            n == args@.len(),
            i <= n,
            start == config@,
            goal == invoked(start, all),
            goal == invoked(current@, all.skip(i as int)),
        decreases n - i,
    {
        let arg = args[i].as_str();
        let value = if i + 1 < n {
            Some(args[i + 1].clone())
        } else {
            None
        };
        proof {
            let left = all.skip(i as int);
            assert(left[0] == arg@);
            assert(left.drop_first() =~= all.skip(i + 1));
            if i + 1 < n {
                assert(left.drop_first()[0] == all[i + 1]);
                assert(left.drop_first().drop_first() =~= all.skip(i + 2));
            }
        }
        let missing = i + 1 == n;
        let step: usize = if missing {
            1
        } else {
            2
        };
        if apply_flag(&mut current, arg) {
            i = i + 1;
        } else if apply_option(&mut current, arg, value) {
            i = i + step;
        } else if same(arg, "--github-api") {
            if missing {
                return Err(glue(arg, " requires a value"));
            }
            current.github_api = args[i + 1].clone();
            i = i + 2;
        } else if same(arg, "--gitlab-api") {
            if missing {
                return Err(glue(arg, " requires a value"));
            }
            current.gitlab_api = args[i + 1].clone();
            i = i + 2;
        } else if same(arg, "--help") || same(arg, "-h") {
            return Ok(Invocation::Help);
        } else {
            return Err(glue("unknown argument: ", arg));
        }
    }
    Ok(Invocation::Run(current))
}

/// The help text.
pub fn help_text() -> (r: &'static str)
    ensures
        r@ == "uf\n\nUsage: uf [options]\n\nOptions:\n  --no-browser\n  --no-github\n  --no-gitlab\n  --no-dockerhub\n  --github-token <token>\n  --gitlab-token <token>\n  --github-api <url>\n  --gitlab-api <url>\n  --github-user <user>\n  --dockerhub-token <token>\n  --dockerhub-user <user>\n  --debug               write diagnostic logs to stderr\n"@,
{
    "uf\n\nUsage: uf [options]\n\nOptions:\n  --no-browser\n  --no-github\n  --no-gitlab\n  --no-dockerhub\n  --github-token <token>\n  --gitlab-token <token>\n  --github-api <url>\n  --gitlab-api <url>\n  --github-user <user>\n  --dockerhub-token <token>\n  --dockerhub-user <user>\n  --debug               write diagnostic logs to stderr\n"
}

} // verus!
