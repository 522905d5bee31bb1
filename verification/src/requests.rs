//! The requests to the remote services, as arguments of `curl`, and the
//! decisions between one request and the next.
use crate::config::{Config, ConfigView};
use crate::json::{json_text, parse_json, Json, JsonView};
use crate::models::{views, Entry, EntryView};
use crate::services::{api_error_in, clean_json_str, cleaned_at, or_empty, text_or_empty};
use crate::services::{parse_dockerhub_repo_entries, parsed_view, Service};
use crate::text::{decimal, decimal_of, glue, glue3, head_of, head_within, opt_text, texts};
use crate::text::{trim_end, trimmed_end, Class};
use vstd::prelude::*;
use vstd::string::*;

verus! {

/// An address without the slashes at its end.
pub open spec fn base_url(url: Seq<char>) -> Seq<char> {
    trim_end(url, Class::Just('/'))
}

/// The header that carries a token, where there is one.
pub open spec fn token_args(prefix: Seq<char>, token: Option<Seq<char>>) -> Seq<Seq<char>> {
    match token {
        Some(token) => seq!["-H"@, prefix + token],
        None => seq![],
    }
}

fn push_token(args: &mut Vec<String>, prefix: &str, token: Option<&str>)
    ensures
        texts(final(args)@) == texts(old(args)@) + token_args(prefix@, text_view(token)),
{
    let ghost before = texts(args@);
    if let Some(token) = token {
        args.push("-H".to_string());
        args.push(glue(prefix, token));
    }
    assert(texts(args@) =~= before + token_args(prefix@, text_view(token)));
}

pub open spec fn text_view(text: Option<&str>) -> Option<Seq<char>> {
    match text {
        Some(t) => Some(t@),
        None => None,
    }
}

fn borrowed(text: &Option<String>) -> (r: Option<&str>)
    ensures
        text_view(r) == opt_text(*text),
{
    match text {
        Some(t) => Some(t.as_str()),
        None => None,
    }
}

// ---------------------------------------------------------------------------
// GitHub
// ---------------------------------------------------------------------------

/// The address of a page of repositories: those of the owner of the token, or
/// those of a user; without either there is nothing to ask for.
pub open spec fn github_page_url(config: ConfigView, page: nat, token: bool) -> Option<Seq<char>> {
    if token {
        Some(
            base_url(config.github_api) + "/user/repos?per_page=100&page="@ + decimal(page)
                + "&sort=updated&affiliation=owner,collaborator,organization_member"@,
        )
    } else {
        match config.github_user {
            Some(user) => Some(
                base_url(config.github_api) + "/users/"@ + user + "/repos?per_page=100&page="@
                    + decimal(page) + "&sort=updated&type=owner"@,
            ),
            None => None,
        }
    }
}

pub open spec fn github_args(mode: Seq<char>, url: Seq<char>, token: Option<Seq<char>>) -> Seq<
    Seq<char>,
> {
    seq![mode, "-H"@, "Accept: application/vnd.github+json"@, "-H"@, "User-Agent: uf"@]
        + token_args("Authorization: Bearer "@, token) + seq![url]
}

fn github_command(mode: &str, url: String, token: Option<&str>) -> (r: Vec<String>)
    ensures
        texts(r@) == github_args(mode@, url@, text_view(token)),
{
    let mut args = vec![
        mode.to_string(),
        "-H".to_string(),
        "Accept: application/vnd.github+json".to_string(),
        "-H".to_string(),
        "User-Agent: uf".to_string(),
    ];
    assert(texts(args@) =~= seq![
        mode@,
        "-H"@,
        "Accept: application/vnd.github+json"@,
        "-H"@,
        "User-Agent: uf"@,
    ]);
    push_token(&mut args, "Authorization: Bearer ", token);
    let ghost before = texts(args@);
    args.push(url);
    assert(texts(args@) =~= before + seq![url@]);
    args
}

/// The request for a page of repositories on GitHub, where there is somebody to
/// ask for.
pub open spec fn github_request(config: ConfigView, page: nat, token: Option<Seq<char>>) -> Option<
    Seq<Seq<char>>,
> {
    match github_page_url(config, page, token is Some) {
        Some(url) => Some(github_args("-fsSL"@, url, token)),
        None => None,
    }
}

/// What the arguments of an optional request hold.
pub open spec fn opt_texts(args: Option<Vec<String>>) -> Option<Seq<Seq<char>>> {
    match args {
        Some(args) => Some(texts(args@)),
        None => None,
    }
}

/// How to ask GitHub for a page of repositories. `None` says that there is
/// nobody to ask for, and the page is empty.
pub fn fetch_github_page(config: &Config, page: usize, token: Option<&str>) -> (r: Option<
    Vec<String>,
>)
    ensures
        opt_texts(r) == github_request(config@, page as nat, text_view(token)),
        match r {
            Some(args) => github_page_url(config@, page as nat, token is Some) is Some && texts(args@)
                == github_args(
                "-fsSL"@,
                github_page_url(config@, page as nat, token is Some)->0,
                text_view(token),
            ),
            None => github_page_url(config@, page as nat, token is Some) is None,
        },
{
    let number = decimal_of(page as u64);
    let mut url = trimmed_end(config.github_api.as_str(), Class::Just('/'));
    if token.is_some() {
        url.append("/user/repos?per_page=100&page=");
        url.append(number.as_str());
        url.append("&sort=updated&affiliation=owner,collaborator,organization_member");
    } else if let Some(user) = &config.github_user {
        url.append("/users/");
        url.append(user.as_str());
        url.append("/repos?per_page=100&page=");
        url.append(number.as_str());
        url.append("&sort=updated&type=owner");
    } else {
        return None;
    }
    Some(github_command("-fsSL", url, token))
}

/// What to do next.
#[derive(Debug)]
pub enum Step {
    /// Run `curl` with these arguments.
    Ask(Vec<String>),
    /// The work is done, with this outcome.
    Done(Result<String, String>),
}

/// What a step holds.
pub enum StepView {
    Ask(Seq<Seq<char>>),
    Done(Result<Seq<char>, Seq<char>>),
}

pub open spec fn result_view(r: Result<String, String>) -> Result<Seq<char>, Seq<char>> {
    match r {
        Ok(t) => Ok(t@),
        Err(e) => Err(e@),
    }
}

impl View for Step {
    type V = StepView;

    open spec fn view(&self) -> StepView {
        match self {
            Step::Ask(args) => StepView::Ask(texts(args@)),
            Step::Done(r) => StepView::Done(result_view(*r)),
        }
    }
}

/// The login name in an answer about the user, or why the check failed.
pub open spec fn github_login(answer: JsonView) -> Result<Seq<char>, Seq<char>> {
    let message = or_empty(cleaned_at(answer, "message"@));
    let login = or_empty(cleaned_at(answer, "login"@));
    if message.len() > 0 {
        Err("GitHub user check failed: "@ + message)
    } else if login.len() == 0 {
        Err("GitHub user check failed: login not found."@)
    } else {
        Ok(login)
    }
}

/// What an answer with repositories says about the access.
pub open spec fn github_access(login: Seq<char>, answer: JsonView) -> Result<Seq<char>, Seq<char>> {
    match answer {
        JsonView::Array(_) => Ok("Connected as "@ + login + ". Repository access OK."@),
        JsonView::Object(_) => {
            let message = or_empty(cleaned_at(answer, "message"@));
            if message.len() == 0 {
                Err("GitHub repository check failed."@)
            } else {
                Err("GitHub repository check failed: "@ + message)
            }
        },
        _ => Err("GitHub repository check returned an unexpected response."@),
    }
}

/// The login name in the text of an answer.
pub open spec fn login_in(body: Seq<char>) -> Result<Seq<char>, Seq<char>> {
    match json_text(body) {
        Ok(answer) => github_login(answer),
        Err(err) => Err("parse GitHub user JSON: "@ + err),
    }
}

/// What the text of an answer says about the access.
pub open spec fn access_in(login: Seq<char>, body: Seq<char>) -> Result<Seq<char>, Seq<char>> {
    match json_text(body) {
        Ok(answer) => github_access(login, answer),
        Err(err) => Err("parse GitHub repos JSON: "@ + err),
    }
}

pub open spec fn replies_view(replies: Seq<Result<String, String>>) -> Seq<
    Result<Seq<char>, Seq<char>>,
> {
    replies.map_values(|r: Result<String, String>| result_view(r))
}

/// The next step of the connectivity test after the given replies: first the
/// user is asked for, then a page of repositories. A failure ends the test.
pub open spec fn connectivity(
    config: ConfigView,
    replies: Seq<Result<Seq<char>, Seq<char>>>,
) -> StepView {
    if config.github_token is None {
        StepView::Done(Err("GitHub token is missing."@))
    } else if replies.len() == 0 {
        StepView::Ask(
            github_args("-sSL"@, base_url(config.github_api) + "/user"@, config.github_token),
        )
    } else {
        match replies[0] {
            Err(err) => StepView::Done(Err(err)),
            Ok(body) => match login_in(body) {
                Err(err) => StepView::Done(Err(err)),
                Ok(login) => if replies.len() == 1 {
                    StepView::Ask(
                        github_args(
                            "-sSL"@,
                            base_url(config.github_api)
                                + "/user/repos?per_page=1&page=1&sort=updated&affiliation=owner,collaborator,organization_member"@,
                            config.github_token,
                        ),
                    )
                } else {
                    match replies[1] {
                        Err(err) => StepView::Done(Err(err)),
                        Ok(body) => StepView::Done(access_in(login, body)),
                    }
                },
            },
        }
    }
}

/// Reads the answer about the user.
pub fn check_github_user(answer: &Json) -> (r: Result<String, String>)
    ensures
        result_view(r) == github_login(answer.model()),
{
    let message = text_or_empty(clean_json_str(answer, "message"));
    if !message.as_str().is_empty() {
        return Err(glue("GitHub user check failed: ", message.as_str()));
    }
    let login = text_or_empty(clean_json_str(answer, "login"));
    if login.as_str().is_empty() {
        return Err("GitHub user check failed: login not found.".to_string());
    }
    Ok(login)
}

/// Reads the answer with repositories.
pub fn check_github_access(login: &str, answer: &Json) -> (r: Result<String, String>)
    ensures
        result_view(r) == github_access(login@, answer.model()),
{
    match answer {
        Json::Array(_) => Ok(glue3("Connected as ", login, ". Repository access OK.")),
        Json::Object(_) => {
            let message = text_or_empty(clean_json_str(answer, "message"));
            if message.as_str().is_empty() {
                Err("GitHub repository check failed.".to_string())
            } else {
                Err(glue("GitHub repository check failed: ", message.as_str()))
            }
        },
        _ => Err("GitHub repository check returned an unexpected response.".to_string()),
    }
}

fn reply(r: &Result<String, String>) -> (out: Result<String, String>)
    ensures
        result_view(out) == result_view(*r),
{
    match r {
        Ok(t) => Ok(t.clone()),
        Err(e) => Err(e.clone()),
    }
}

/// The next step of the connectivity test after the replies that have come.
pub fn test_github_connectivity(config: &Config, replies: &Vec<Result<String, String>>) -> (r: Step)
    ensures
        r@ == connectivity(config@, replies_view(replies@)),
{
    let token = match &config.github_token {
        Some(token) => token.as_str(),
        None => return Step::Done(Err("GitHub token is missing.".to_string())),
    };
    let mut url = trimmed_end(config.github_api.as_str(), Class::Just('/'));
    if replies.len() == 0 {
        url.append("/user");
        return Step::Ask(github_command("-sSL", url, Some(token)));
    }
    assert(replies_view(replies@)[0] == result_view(replies@[0]));
    let user_body = match reply(&replies[0]) {
        Ok(body) => body,
        Err(err) => return Step::Done(Err(err)),
    };
    let user_json = match parse_json(user_body.as_str()) {
        Ok(answer) => answer,
        Err(err) => return Step::Done(Err(glue("parse GitHub user JSON: ", err.as_str()))),
    };
    let login = match check_github_user(&user_json) {
        Ok(login) => login,
        Err(err) => return Step::Done(Err(err)),
    };
    if replies.len() == 1 {
        url.append(
            "/user/repos?per_page=1&page=1&sort=updated&affiliation=owner,collaborator,organization_member",
        );
        return Step::Ask(github_command("-sSL", url, Some(token)));
    }
    assert(replies_view(replies@)[1] == result_view(replies@[1]));
    let repos_body = match reply(&replies[1]) {
        Ok(body) => body,
        Err(err) => return Step::Done(Err(err)),
    };
    match parse_json(repos_body.as_str()) {
        Ok(answer) => Step::Done(check_github_access(login.as_str(), &answer)),
        Err(err) => Step::Done(Err(glue("parse GitHub repos JSON: ", err.as_str()))),
    }
}

/// The connectivity test makes at most two requests, and without a token none.
pub proof fn law_connectivity_ends(
    config: ConfigView,
    replies: Seq<Result<Seq<char>, Seq<char>>>,
)
    ensures
        replies.len() >= 2 ==> connectivity(config, replies) is Done,
        config.github_token is None ==> connectivity(config, replies) == StepView::Done(
            Err("GitHub token is missing."@),
        ),
{
}

// ---------------------------------------------------------------------------
// GitLab
// ---------------------------------------------------------------------------

/// The address of a page of projects: those of the owner of the token, or the
/// public ones.
pub open spec fn gitlab_page_url(config: ConfigView, page: nat) -> Seq<char> {
    base_url(config.gitlab_api) + "/projects?per_page=100&page="@ + decimal(page)
        + "&order_by=last_activity_at&sort=desc"@ + if config.gitlab_token is Some {
        "&membership=true&min_access_level=20"@
    } else {
        "&visibility=public"@
    }
}

/// The arguments with which GitLab is asked for a page.
pub open spec fn gitlab_args(config: ConfigView, page: nat) -> Seq<Seq<char>> {
    seq!["-fsSL"@, "-H"@, "User-Agent: web-fzf"@] + token_args(
        "PRIVATE-TOKEN: "@,
        config.gitlab_token,
    ) + seq![gitlab_page_url(config, page)]
}

/// How to ask GitLab for a page of projects.
pub fn fetch_gitlab_page(config: &Config, page: usize) -> (r: Vec<String>)
    ensures
        texts(r@) == gitlab_args(config@, page as nat),
        texts(r@) == seq!["-fsSL"@, "-H"@, "User-Agent: web-fzf"@] + token_args(
            "PRIVATE-TOKEN: "@,
            config@.gitlab_token,
        ) + seq![gitlab_page_url(config@, page as nat)],
{
    let mut url = trimmed_end(config.gitlab_api.as_str(), Class::Just('/'));
    url.append("/projects?per_page=100&page=");
    url.append(decimal_of(page as u64).as_str());
    url.append("&order_by=last_activity_at&sort=desc");
    if config.gitlab_token.is_some() {
        url.append("&membership=true&min_access_level=20");
    } else {
        url.append("&visibility=public");
    }
    let mut args = vec!["-fsSL".to_string(), "-H".to_string(), "User-Agent: web-fzf".to_string()];
    assert(texts(args@) =~= seq!["-fsSL"@, "-H"@, "User-Agent: web-fzf"@]);
    push_token(&mut args, "PRIVATE-TOKEN: ", borrowed(&config.gitlab_token));
    let ghost before = texts(args@);
    args.push(url);
    assert(texts(args@) =~= before + seq![url@]);
    args
}

// ---------------------------------------------------------------------------
// Docker Hub
// ---------------------------------------------------------------------------

pub open spec fn dockerhub_args(url: Seq<char>, token: Option<Seq<char>>) -> Seq<Seq<char>> {
    seq!["-sSL"@, "-H"@, "Content-Type: application/json"@] + token_args(
        "Authorization: JWT "@,
        token,
    ) + seq![url]
}

fn dockerhub_command(url: String, token: Option<&str>) -> (r: Vec<String>)
    ensures
        texts(r@) == dockerhub_args(url@, text_view(token)),
{
    let mut args = vec![
        "-sSL".to_string(),
        "-H".to_string(),
        "Content-Type: application/json".to_string(),
    ];
    assert(texts(args@) =~= seq!["-sSL"@, "-H"@, "Content-Type: application/json"@]);
    push_token(&mut args, "Authorization: JWT ", token);
    let ghost before = texts(args@);
    args.push(url);
    assert(texts(args@) =~= before + seq![url@]);
    args
}

/// The address of the tags of an image.
pub open spec fn dockerhub_tags_url(repo: Seq<char>) -> Seq<char> {
    "https://hub.docker.com/v2/repositories/"@ + repo
        + "/tags/?page_size=100&ordering=last_updated"@
}

/// How to ask Docker Hub for the tags of an image.
pub fn fetch_dockerhub_tags(repo: &str, token: Option<&str>) -> (r: Vec<String>)
    ensures
        texts(r@) == dockerhub_args(dockerhub_tags_url(repo@), text_view(token)),
        texts(r@) == dockerhub_args(
            "https://hub.docker.com/v2/repositories/"@ + repo@
                + "/tags/?page_size=100&ordering=last_updated"@,
            text_view(token),
        ),
{
    let url = glue3(
        "https://hub.docker.com/v2/repositories/",
        repo,
        "/tags/?page_size=100&ordering=last_updated",
    );
    dockerhub_command(url, token)
}

/// The address of a page of images.
pub open spec fn dockerhub_page_url(username: Seq<char>, page: nat) -> Seq<char> {
    "https://hub.docker.com/v2/repositories/"@ + username + "/?page_size=100&page="@ + decimal(page)
        + "&ordering=last_updated"@
}

/// The lines that a debugging run writes before a page is asked for.
pub open spec fn dockerhub_request_log(config: ConfigView, page: nat) -> Seq<Seq<char>> {
    if !config.debug {
        seq![]
    } else {
        match config.dockerhub_username {
            None => seq!["[dockerhub] skipped: DOCKERHUB_USERNAME not set"@],
            Some(username) => seq![
                "[dockerhub] GET "@ + dockerhub_page_url(username, page),
                "[dockerhub] token: "@ + if config.dockerhub_token is Some {
                    "present"@
                } else {
                    "none (public repos only)"@
                },
            ],
        }
    }
}

/// The request for a page of images, where there is a user name.
pub open spec fn dockerhub_request(config: ConfigView, page: nat) -> Option<Seq<Seq<char>>> {
    match config.dockerhub_username {
        Some(username) => Some(
            dockerhub_args(dockerhub_page_url(username, page), config.dockerhub_token),
        ),
        None => None,
    }
}

/// How to ask Docker Hub for a page of images, and what a debugging run
/// writes. Without a user name there is nothing to ask for, and the page is
/// empty.
pub fn fetch_dockerhub_page(config: &Config, page: usize) -> (r: (Option<Vec<String>>, Vec<String>))
    ensures
        opt_texts(r.0) == dockerhub_request(config@, page as nat),
        match r.0 {
            Some(args) => config@.dockerhub_username is Some && texts(args@) == dockerhub_args(
                dockerhub_page_url(config@.dockerhub_username->0, page as nat),
                config@.dockerhub_token,
            ),
            None => config@.dockerhub_username is None,
        },
        texts(r.1@) == dockerhub_request_log(config@, page as nat),
{
    let mut log: Vec<String> = Vec::new();
    let username = match &config.dockerhub_username {
        Some(username) => username,
        None => {
            if config.debug {
                log.push("[dockerhub] skipped: DOCKERHUB_USERNAME not set".to_string());
            }
            assert(texts(log@) =~= dockerhub_request_log(config@, page as nat));
            return (None, log);
        },
    };
    let mut url = glue3(
        "https://hub.docker.com/v2/repositories/",
        username.as_str(),
        "/?page_size=100&page=",
    );
    url.append(decimal_of(page as u64).as_str());
    url.append("&ordering=last_updated");
    if config.debug {
        log.push(glue("[dockerhub] GET ", url.as_str()));
        let token = if config.dockerhub_token.is_some() {
            "present"
        } else {
            "none (public repos only)"
        };
        log.push(glue("[dockerhub] token: ", token));
    }
    assert(texts(log@) =~= dockerhub_request_log(config@, page as nat));
    (Some(dockerhub_command(url, borrowed(&config.dockerhub_token))), log)
}

/// An answer as the log quotes it: of a long one the first 500 bytes, without
/// a character that they would cut in two.
pub open spec fn quoted(output: Seq<char>) -> Seq<char> {
    if vstd::utf8::encode_utf8(output).len() > 500 {
        head_within(output, 500) + "... (truncated)"@
    } else {
        output
    }
}

/// The lines that a debugging run writes about an answer.
pub open spec fn dockerhub_answer_log(debug: bool, output: Seq<char>) -> Seq<Seq<char>> {
    if !debug {
        seq![]
    } else {
        let head = seq![
            "[dockerhub] curl response ("@ + decimal(vstd::utf8::encode_utf8(output).len())
                + " bytes): "@ + quoted(output),
        ];
        if output.len() == 0 {
            head.push("[dockerhub] curl returned empty body (possible auth error or network issue)"@)
        } else {
            let reported = match api_error_in(output, true) {
                Some(line) => head.push(line),
                None => head,
            };
            match Service::DockerHub.parsed(output) {
                Ok(entries) => reported.push(
                    "[dockerhub] parsed "@ + decimal(entries.len()) + " repository entries"@,
                ),
                Err(_) => reported,
            }
        }
    }
}

/// The images in an answer of Docker Hub, still without their tags, and what
/// a debugging run writes about the answer. The images are the same whether
/// the run is one or not.
pub fn read_dockerhub_page(debug: bool, output: &str) -> (r: (
    Result<Vec<Entry>, String>,
    Vec<String>,
))
    ensures
        output@.len() == 0 ==> parsed_view(r.0) == Ok::<Seq<EntryView>, Seq<char>>(seq![]),
        output@.len() > 0 ==> parsed_view(r.0) == Service::DockerHub.parsed(output@),
        texts(r.1@) == dockerhub_answer_log(debug, output@),
{
    let mut log: Vec<String> = Vec::new();
    let size: usize = output.as_bytes().len();
    if debug {
        let mut line = glue3(
            "[dockerhub] curl response (",
            decimal_of(size as u64).as_str(),
            " bytes): ",
        );
        if size > 500 {
            let head = head_of(output, 500);
            line.append(glue(head.as_str(), "... (truncated)").as_str());
        } else {
            line.append(output);
        }
        log.push(line);
        assert(texts(log@) =~= seq![
            "[dockerhub] curl response ("@ + decimal(vstd::utf8::encode_utf8(output@).len())
                + " bytes): "@ + quoted(output@),
        ]);
    }
    let ghost head = texts(log@);
    if output.is_empty() {
        if debug {
            log.push(
                "[dockerhub] curl returned empty body (possible auth error or network issue)".to_string(),
            );
        }
        assert(texts(log@) =~= dockerhub_answer_log(debug, output@));
        let none: Vec<Entry> = Vec::new();
        assert(views(none@) =~= seq![]);
        return (Ok(none), log);
    }
    let (rows, report) = parse_dockerhub_repo_entries(output, debug);
    let ghost reported = if report is Some {
        head.push(report->0@)
    } else {
        head
    };
    if let Some(line) = report {
        log.push(line);
    }
    assert(texts(log@) =~= reported);
    if debug {
        if let Ok(entries) = &rows {
            log.push(
                glue3(
                    "[dockerhub] parsed ",
                    decimal_of(entries.len() as u64).as_str(),
                    " repository entries",
                ),
            );
            assert(views(entries@).len() == entries@.len());
            assert(texts(log@) =~= dockerhub_answer_log(debug, output@));
        }
    }
    assert(texts(log@) =~= dockerhub_answer_log(debug, output@));
    (rows, log)
}

/// The line that a debugging run writes when a page is complete.
pub fn dockerhub_page_line(debug: bool, page: usize, count: usize) -> (r: Option<String>)
    ensures
        opt_text(r) == (if debug {
            Some(
                "[dockerhub] page "@ + decimal(page as nat) + ": "@ + decimal(count as nat)
                    + " entries"@,
            )
        } else {
            None
        }),
{
    if debug {
        let mut line = glue3("[dockerhub] page ", decimal_of(page as u64).as_str(), ": ");
        line.append(decimal_of(count as u64).as_str());
        line.append(" entries");
        Some(line)
    } else {
        None
    }
}

} // verus!
