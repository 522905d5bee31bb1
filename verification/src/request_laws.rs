//! What holds of the requests to the remote services, and of what is made of
//! their answers.
use crate::cache::blank;
use crate::config::ConfigView;
use crate::entry_laws::{lemma_filter_map_add, lemma_filter_map_one};
use crate::json::{json_text, JsonView};
use crate::models::{plain_title, EntryView};
use crate::refresh::{concluded, history_step, lemma_page_rows_push, page_rows, paging, refresh_end};
use crate::refresh::{first_page, github_paging, JobStepView, JobView, PagingView};
use crate::repos::{described, law_cleaned_holds_no_marker, law_stars_come_back, stars_of};
use crate::requests::{base_url, connectivity, dockerhub_args, dockerhub_page_url};
use crate::requests::{dockerhub_request, dockerhub_request_log, github_request};
use crate::requests::{ dockerhub_tags_url, github_access, github_args};
use crate::requests::{github_login, github_page_url, gitlab_args, gitlab_page_url, login_in, StepView};
use crate::services::{answer_tags, api_error_line, item_tag, parsed_tags, Service};
use crate::sources::{cleaned, deduplicated};
use crate::text::{decimal, digit, is_space, lemma_trim_end, lemma_trim_ends, lemma_trim_start};
use crate::text::{trim_start, Class};
use vstd::prelude::*;
use vstd::string::*;

verus! {

// ---------------------------------------------------------------------------
// Addresses
// ---------------------------------------------------------------------------

proof fn lemma_decimal_length(n: nat)
    ensures
        decimal(n).len() >= 1,
        n >= 10 ==> decimal(n).len() >= 2,
    decreases n,
{
    if n >= 10 {
        lemma_decimal_length(n / 10);
    }
}

/// Two numbers that are written alike are the same.
pub proof fn law_decimals_differ(a: nat, b: nat)
    requires
        decimal(a) == decimal(b),
    ensures
        a == b,
    decreases a,
{
    lemma_decimal_length(a);
    lemma_decimal_length(b);
    assert(decimal(a).last() == digit(a % 10));
    assert(decimal(b).last() == digit(b % 10));
    assert(a % 10 == b % 10);
    if a >= 10 && b >= 10 {
        assert(decimal(a).drop_last() =~= decimal(a / 10));
        assert(decimal(b).drop_last() =~= decimal(b / 10));
        law_decimals_differ(a / 10, b / 10);
    }
}

/// Whether an address asks for a page: it holds `page=`, the number and then
/// another parameter.
pub open spec fn asks_for_page(url: Seq<char>, page: nat) -> bool {
    exists|before: Seq<char>, after: Seq<char>|
        url == #[trigger] (before + "&page="@ + decimal(page) + "&"@ + after)
}

proof fn lemma_asks(url: Seq<char>, head: Seq<char>, page: nat, tail: Seq<char>)
    requires
        url == head + decimal(page) + tail,
        "&page="@.is_suffix_of(head),
        "&"@.is_prefix_of(tail),
    ensures
        asks_for_page(url, page),
{
    let before = head.take(head.len() - "&page="@.len());
    let after = tail.skip("&"@.len() as int);
    assert(before + "&page="@ =~= head);
    assert("&"@ + after =~= tail);
    assert(url =~= before + "&page="@ + decimal(page) + "&"@ + after);
}

proof fn lemma_pages_differ(head: Seq<char>, tail: Seq<char>, a: nat, b: nat)
    requires
        head + decimal(a) + tail == head + decimal(b) + tail,
    ensures
        a == b,
{
    let x = head + decimal(a) + tail;
    let y = head + decimal(b) + tail;
    let n = head.len() as int;
    assert(decimal(a) =~= x.subrange(n, x.len() - tail.len()));
    assert(decimal(b) =~= y.subrange(n, y.len() - tail.len()));
    law_decimals_differ(a, b);
}

/// GitHub is asked for the page that is wanted, a hundred repositories at a
/// time, with a token as well as without one. With a token these are the
/// repositories that it gives access to, without one those of the user.
pub proof fn law_github_page_is_asked_for(config: ConfigView, page: nat, other: nat, token: bool)
    ensures
        github_page_url(config, page, token) is Some <==> token || config.github_user is Some,
        github_page_url(config, page, token) matches Some(url) ==> asks_for_page(url, page),
        github_page_url(config, page, token) is Some && page != other ==> github_page_url(
            config,
            page,
            token,
        ) != github_page_url(config, other, token),
        token ==> (base_url(config.github_api) + "/user/repos?per_page=100&"@).is_prefix_of(
            github_page_url(config, page, token)->0,
        ) && "&sort=updated&affiliation=owner,collaborator,organization_member"@.is_suffix_of(
            github_page_url(config, page, token)->0,
        ),
        !token && config.github_user is Some ==> (base_url(config.github_api) + "/users/"@
            + config.github_user->0 + "/repos?per_page=100&"@).is_prefix_of(
            github_page_url(config, page, token)->0,
        ) && "&sort=updated&type=owner"@.is_suffix_of(github_page_url(config, page, token)->0),
{
    reveal_strlit("&page=");
    reveal_strlit("&");
    reveal_strlit("/user/repos?per_page=100&page=");
    reveal_strlit("/user/repos?per_page=100&");
    reveal_strlit("/repos?per_page=100&page=");
    reveal_strlit("/repos?per_page=100&");
    reveal_strlit("&sort=updated&affiliation=owner,collaborator,organization_member");
    reveal_strlit("&sort=updated&type=owner");
    let base = base_url(config.github_api);
    let own = "/user/repos?per_page=100&page="@;
    let short_own = "/user/repos?per_page=100&"@;
    let their = "/repos?per_page=100&page="@;
    let short_their = "/repos?per_page=100&"@;
    let own_tail = "&sort=updated&affiliation=owner,collaborator,organization_member"@;
    let their_tail = "&sort=updated&type=owner"@;
    assert("&page="@ =~= own.skip(own.len() - 6));
    assert("&page="@ =~= their.skip(their.len() - 6));
    assert("&"@ =~= own_tail.take(1));
    assert("&"@ =~= their_tail.take(1));
    assert(short_own =~= own.take(short_own.len() as int));
    assert(short_their =~= their.take(short_their.len() as int));
    if token {
        let head = base + own;
        let url = github_page_url(config, page, token)->0;
        assert(url == head + decimal(page) + own_tail);
        assert("&page="@ =~= head.skip(head.len() - 6));
        lemma_asks(url, head, page, own_tail);
        assert((base + short_own) =~= url.take((base + short_own).len() as int));
        assert(own_tail =~= url.skip(url.len() - own_tail.len()));
        if github_page_url(config, page, token) == github_page_url(config, other, token) {
            lemma_pages_differ(head, own_tail, page, other);
        }
    } else if config.github_user is Some {
        let user = config.github_user->0;
        let head = base + "/users/"@ + user + their;
        let url = github_page_url(config, page, token)->0;
        assert(url == head + decimal(page) + their_tail);
        assert("&page="@ =~= head.skip(head.len() - 6));
        lemma_asks(url, head, page, their_tail);
        let start = base + "/users/"@ + user + short_their;
        assert(start =~= url.take(start.len() as int));
        assert(their_tail =~= url.skip(url.len() - their_tail.len()));
        if github_page_url(config, page, token) == github_page_url(config, other, token) {
            lemma_pages_differ(head, their_tail, page, other);
        }
    }
}

/// GitLab is asked for the page that is wanted, a hundred projects at a time,
/// those used last first. With a token these are the projects of its owner,
/// without one the public ones.
pub proof fn law_gitlab_page_is_asked_for(config: ConfigView, page: nat, other: nat)
    ensures
        asks_for_page(gitlab_page_url(config, page), page),
        page != other ==> gitlab_page_url(config, page) != gitlab_page_url(config, other),
        (base_url(config.gitlab_api) + "/projects?per_page=100&"@).is_prefix_of(
            gitlab_page_url(config, page),
        ),
        config.gitlab_token is Some
            ==> "&order_by=last_activity_at&sort=desc&membership=true&min_access_level=20"@.is_suffix_of(
        gitlab_page_url(config, page)),
        config.gitlab_token is None
            ==> "&order_by=last_activity_at&sort=desc&visibility=public"@.is_suffix_of(
        gitlab_page_url(config, page)),
{
    reveal_strlit("&page=");
    reveal_strlit("&");
    reveal_strlit("/projects?per_page=100&page=");
    reveal_strlit("/projects?per_page=100&");
    reveal_strlit("&order_by=last_activity_at&sort=desc");
    reveal_strlit("&membership=true&min_access_level=20");
    reveal_strlit("&visibility=public");
    reveal_strlit("&order_by=last_activity_at&sort=desc&membership=true&min_access_level=20");
    reveal_strlit("&order_by=last_activity_at&sort=desc&visibility=public");
    let base = base_url(config.gitlab_api);
    let head = base + "/projects?per_page=100&page="@;
    let kind = if config.gitlab_token is Some {
        "&membership=true&min_access_level=20"@
    } else {
        "&visibility=public"@
    };
    let tail = "&order_by=last_activity_at&sort=desc"@ + kind;
    let url = gitlab_page_url(config, page);
    assert(url =~= head + decimal(page) + tail);
    assert(gitlab_page_url(config, other) =~= head + decimal(other) + tail);
    assert("&page="@ =~= head.skip(head.len() - 6));
    assert("&"@ =~= tail.take(1));
    lemma_asks(url, head, page, tail);
    if gitlab_page_url(config, page) == gitlab_page_url(config, other) {
        lemma_pages_differ(head, tail, page, other);
    }
    let start = base + "/projects?per_page=100&"@;
    assert(start =~= url.take(start.len() as int));
    assert(tail =~= url.skip(url.len() - tail.len()));
    if config.gitlab_token is Some {
        assert(tail
            =~= "&order_by=last_activity_at&sort=desc&membership=true&min_access_level=20"@);
    } else {
        assert(tail =~= "&order_by=last_activity_at&sort=desc&visibility=public"@);
    }
}

/// Docker Hub is asked for the page that is wanted of the images of the user, a
/// hundred at a time, and for the tags of the image that is wanted.
pub proof fn law_dockerhub_page_is_asked_for(
    user: Seq<char>,
    page: nat,
    other: nat,
    repo: Seq<char>,
    other_repo: Seq<char>,
)
    ensures
        asks_for_page(dockerhub_page_url(user, page), page),
        page != other ==> dockerhub_page_url(user, page) != dockerhub_page_url(user, other),
        ("https://hub.docker.com/v2/repositories/"@ + user
            + "/?page_size=100&"@).is_prefix_of(dockerhub_page_url(user, page)),
        "&ordering=last_updated"@.is_suffix_of(dockerhub_page_url(user, page)),
        dockerhub_tags_url(repo) == dockerhub_tags_url(other_repo) ==> repo == other_repo,
        ("https://hub.docker.com/v2/repositories/"@ + repo
            + "/tags/?page_size=100"@).is_prefix_of(dockerhub_tags_url(repo)),
{
    reveal_strlit("&page=");
    reveal_strlit("&");
    reveal_strlit("/?page_size=100&page=");
    reveal_strlit("/?page_size=100&");
    reveal_strlit("&ordering=last_updated");
    reveal_strlit("/tags/?page_size=100&ordering=last_updated");
    reveal_strlit("/tags/?page_size=100");
    let site = "https://hub.docker.com/v2/repositories/"@;
    let head = site + user + "/?page_size=100&page="@;
    let tail = "&ordering=last_updated"@;
    let url = dockerhub_page_url(user, page);
    assert(url == head + decimal(page) + tail);
    assert("&page="@ =~= head.skip(head.len() - 6));
    assert("&"@ =~= tail.take(1));
    lemma_asks(url, head, page, tail);
    if url == dockerhub_page_url(user, other) {
        lemma_pages_differ(head, tail, page, other);
    }
    let start = site + user + "/?page_size=100&"@;
    assert(start =~= url.take(start.len() as int));
    assert(tail =~= url.skip(url.len() - tail.len()));
    let tags = dockerhub_tags_url(repo);
    let end = "/tags/?page_size=100&ordering=last_updated"@;
    assert(tags == site + repo + end);
    assert(repo =~= tags.subrange(site.len() as int, tags.len() - end.len()));
    let others = dockerhub_tags_url(other_repo);
    assert(others == site + other_repo + end);
    assert(other_repo =~= others.subrange(site.len() as int, others.len() - end.len()));
    let begin = site + repo + "/tags/?page_size=100"@;
    assert(begin =~= tags.take(begin.len() as int));
}

/// The address of a service is taken as it is configured, but for slashes at
/// its end.
pub proof fn law_base_url(url: Seq<char>)
    ensures
        base_url(url).is_prefix_of(url),
        base_url(url).len() > 0 ==> base_url(url).last() != '/',
        forall|i: int| base_url(url).len() <= i < url.len() ==> #[trigger] url[i] == '/',
        base_url(url.push('/')) == base_url(url),
{
    lemma_trim_end(url, Class::Just('/'));
    assert(url.push('/').drop_last() =~= url);
    assert forall|i: int| base_url(url).len() <= i < url.len() implies #[trigger] url[i] == '/' by {
        assert(Class::Just('/').has(url[i]));
    }
}

// ---------------------------------------------------------------------------
// Tokens
// ---------------------------------------------------------------------------

/// Whether a request carries a header.
pub open spec fn has_header(args: Seq<Seq<char>>, header: Seq<char>) -> bool {
    exists|i: int| 0 <= i < args.len() - 2 && args[i] == "-H"@ && #[trigger] args[i + 1] == header
}

/// A request to GitHub is for its address, which stands last, and carries the
/// token where there is one. Without one it carries none.
pub proof fn law_github_token_is_sent(mode: Seq<char>, url: Seq<char>, token: Option<Seq<char>>)
    ensures
        github_args(mode, url, token).last() == url,
        github_args(mode, url, token)[0] == mode,
        has_header(github_args(mode, url, token), "Accept: application/vnd.github+json"@),
        token matches Some(t) ==> has_header(
            github_args(mode, url, token),
            "Authorization: Bearer "@ + t,
        ),
        token is None ==> github_args(mode, url, token) == seq![
            mode,
            "-H"@,
            "Accept: application/vnd.github+json"@,
            "-H"@,
            "User-Agent: uf"@,
            url,
        ],
{
    let args = github_args(mode, url, token);
    assert(args[1int + 1] == "Accept: application/vnd.github+json"@ && args[1] == "-H"@);
    if let Some(t) = token {
        assert(args[5] == "-H"@ && args[5int + 1] == "Authorization: Bearer "@ + t);
    } else {
        assert(args =~= seq![
            mode,
            "-H"@,
            "Accept: application/vnd.github+json"@,
            "-H"@,
            "User-Agent: uf"@,
            url,
        ]);
    }
}

/// A request to GitLab is for the page, and carries the token of GitLab where
/// there is one. Without one it carries none.
pub proof fn law_gitlab_token_is_sent(config: ConfigView, page: nat)
    ensures
        gitlab_args(config, page).last() == gitlab_page_url(config, page),
        config.gitlab_token matches Some(t) ==> has_header(
            gitlab_args(config, page),
            "PRIVATE-TOKEN: "@ + t,
        ),
        config.gitlab_token is None ==> gitlab_args(config, page) == seq![
            "-fsSL"@,
            "-H"@,
            "User-Agent: web-fzf"@,
            gitlab_page_url(config, page),
        ],
{
    let args = gitlab_args(config, page);
    if let Some(t) = config.gitlab_token {
        assert(args[3] == "-H"@ && args[3int + 1] == "PRIVATE-TOKEN: "@ + t);
    } else {
        assert(args =~= seq![
            "-fsSL"@,
            "-H"@,
            "User-Agent: web-fzf"@,
            gitlab_page_url(config, page),
        ]);
    }
}

/// A request to Docker Hub is for its address, and carries the token where
/// there is one. Without one it carries none.
pub proof fn law_dockerhub_token_is_sent(url: Seq<char>, token: Option<Seq<char>>)
    ensures
        dockerhub_args(url, token).last() == url,
        token matches Some(t) ==> has_header(
            dockerhub_args(url, token),
            "Authorization: JWT "@ + t,
        ),
        token is None ==> dockerhub_args(url, token) == seq![
            "-sSL"@,
            "-H"@,
            "Content-Type: application/json"@,
            url,
        ],
{
    let args = dockerhub_args(url, token);
    if let Some(t) = token {
        assert(args[3] == "-H"@ && args[3int + 1] == "Authorization: JWT "@ + t);
    } else {
        assert(args =~= seq!["-sSL"@, "-H"@, "Content-Type: application/json"@, url]);
    }
}

// ---------------------------------------------------------------------------
// Answers
// ---------------------------------------------------------------------------

/// Whether an entry is what an object says of a repository, under the given
/// keys.
pub open spec fn describes_repo(
    item: JsonView,
    entry: EntryView,
    url_key: Seq<char>,
    title_key: Seq<char>,
    stars_key: Seq<char>,
) -> bool {
    &&& entry.url == cleaned(item.text_at(url_key)->0)
    &&& item.text_at(title_key) matches Some(title) ==> entry.title == plain_title(cleaned(title))
    &&& item.text_at(title_key) is None && item.text_at("name"@) is Some ==> entry.title
        == plain_title(cleaned(item.text_at("name"@)->0))
    &&& item.text_at(title_key) is None && item.text_at("name"@) is None ==> entry.title
        == plain_title(entry.url)
    &&& item.text_at("description"@) matches Some(text) ==> described(
        entry.detail,
        "\nWEB_FZF_STARS\t"@,
    ) == cleaned(text)
    &&& item.text_at("description"@) is None ==> described(
        entry.detail,
        "\nWEB_FZF_STARS\t"@,
    ).len() == 0
    &&& item.number_at(stars_key) matches Some(n) ==> (n > 0 ==> stars_of(entry.detail) == Some(n))
    &&& item.number_at(stars_key) is None || item.number_at(stars_key) == Some(0u64) ==> stars_of(
        entry.detail,
    ) is None
}

proof fn lemma_repo(item: JsonView, service: Service)
    requires
        service != Service::DockerHub,
        service.item_entry(item) is Some,
    ensures
        service == Service::GitHub ==> describes_repo(
            item,
            service.item_entry(item)->0,
            "html_url"@,
            "full_name"@,
            "stargazers_count"@,
        ),
        service == Service::GitLab ==> describes_repo(
            item,
            service.item_entry(item)->0,
            "web_url"@,
            "path_with_namespace"@,
            "star_count"@,
        ),
{
    let text = match item.text_at("description"@) {
        Some(text) => text,
        None => seq![],
    };
    let description = cleaned(text);
    assert(item.text_at("description"@) is None ==> description =~= seq![]);
    let key = match service {
        Service::GitHub => "stargazers_count"@,
        _ => "star_count"@,
    };
    let stars = match item.number_at(key) {
        Some(n) => n,
        None => 0,
    };
    law_cleaned_holds_no_marker(text);
    law_stars_come_back(description, stars);
}

/// An object in an answer of GitHub is a repository where it has an address
/// under `html_url`. Title, description and stars are those that the object
/// gives.
pub proof fn law_github_item(item: JsonView)
    ensures
        Service::GitHub.item_entry(item) is Some <==> item.text_at("html_url"@) is Some
            && item.text_at("html_url"@)->0.len() > 0,
        Service::GitHub.item_entry(item) matches Some(entry) ==> describes_repo(
            item,
            entry,
            "html_url"@,
            "full_name"@,
            "stargazers_count"@,
        ),
{
    if Service::GitHub.item_entry(item) is Some {
        lemma_repo(item, Service::GitHub);
    }
}

/// An object in an answer of GitLab is a project where it has an address under
/// `web_url`. Title, description and stars are those that the object gives.
pub proof fn law_gitlab_item(item: JsonView)
    ensures
        Service::GitLab.item_entry(item) is Some <==> item.text_at("web_url"@) is Some
            && item.text_at("web_url"@)->0.len() > 0,
        Service::GitLab.item_entry(item) matches Some(entry) ==> describes_repo(
            item,
            entry,
            "web_url"@,
            "path_with_namespace"@,
            "star_count"@,
        ),
{
    if Service::GitLab.item_entry(item) is Some {
        lemma_repo(item, Service::GitLab);
    }
}

/// An object in an answer of Docker Hub is an image where it has a name. Its
/// title is the name, behind that of its owner where it has one, and its page
/// is that of the title.
pub proof fn law_dockerhub_item(item: JsonView)
    ensures
        Service::DockerHub.item_entry(item) is Some <==> item.text_at("name"@) is Some
            && item.text_at("name"@)->0.len() > 0,
        Service::DockerHub.item_entry(item) matches Some(entry) ==> {
            let name = cleaned(item.text_at("name"@)->0);
            let title = match item.text_at("namespace"@) {
                Some(owner) => if owner.len() > 0 {
                    cleaned(owner) + "/"@ + name
                } else {
                    name
                },
                None => name,
            };
            &&& entry.title == plain_title(title)
            &&& entry.url == "https://hub.docker.com/r/"@ + title
            &&& item.text_at("description"@) matches Some(text) ==> entry.detail == cleaned(text)
            &&& item.text_at("description"@) is None ==> entry.detail.len() == 0
        },
{
}

/// Whether an answer of a service lists some objects: as it is for GitHub and
/// GitLab, under `results` for Docker Hub.
pub open spec fn answers(service: Service, answer: JsonView, items: Seq<JsonView>) -> bool {
    match service {
        Service::GitHub => answer == JsonView::Array(items),
        Service::GitLab => answer == JsonView::Array(items),
        Service::DockerHub => answer.get("results"@) == Some(JsonView::Array(items)),
    }
}

/// An answer is read object by object: what it lists in two parts gives the
/// entries of both parts, and a single object that one entry.
pub proof fn law_answers_are_put_together(
    service: Service,
    answer: JsonView,
    first: JsonView,
    second: JsonView,
    a: Seq<JsonView>,
    b: Seq<JsonView>,
)
    requires
        answers(service, answer, a + b),
        answers(service, first, a),
        answers(service, second, b),
    ensures
        service.entries(answer) == service.entries(first) + service.entries(second),
        a.len() == 1 ==> service.entries(first) == (match service.item_entry(a[0]) {
            Some(entry) => seq![entry],
            None => seq![],
        }),
        a.len() == 0 ==> service.entries(first).len() == 0,
{
    let f = |item: JsonView| service.item_entry(item);
    lemma_filter_map_add(a, b, f);
    if a.len() == 1 {
        assert(a =~= seq![a[0]]);
        lemma_filter_map_one(a[0], f);
    }
}

/// The text of an answer is read as the document that it is. A text with
/// nothing but white space is an answer without entries.
pub proof fn law_answer_text(service: Service, text: Seq<char>)
    ensures
        (forall|i: int| 0 <= i < text.len() ==> is_space(#[trigger] text[i])) ==> service.parsed(
            text,
        ) is Ok && service.parsed(text)->Ok_0.len() == 0,
        (exists|i: int| 0 <= i < text.len() && !is_space(#[trigger] text[i])) ==> (match json_text(
            text,
        ) {
            Ok(answer) => service.parsed(text) is Ok && service.parsed(text)->Ok_0
                == service.entries(answer),
            Err(_) => service.parsed(text) is Err,
        }),
{
    lemma_blank(text);
}

proof fn lemma_blank(text: Seq<char>)
    ensures
        blank(text) <==> forall|i: int| 0 <= i < text.len() ==> is_space(#[trigger] text[i]),
{
    let class = Class::Space;
    let tail = trim_start(text, class);
    lemma_trim_start(text, class);
    lemma_trim_end(tail, class);
    lemma_trim_ends(text, class);
    let cut = text.len() - tail.len();
    if blank(text) {
        assert forall|i: int| 0 <= i < text.len() implies is_space(#[trigger] text[i]) by {
            if i < cut {
                assert(class.has(text[i]));
            } else {
                assert(class.has(tail[i - cut]));
            }
        }
    } else {
        assert(!class.has(tail[0]));
        assert(tail[0] == text[cut]);
    }
}

/// The tags in an answer are the names of the objects that it lists, in their
/// order, but for empty ones.
pub proof fn law_tags_are_put_together(
    answer: JsonView,
    first: JsonView,
    second: JsonView,
    a: Seq<JsonView>,
    b: Seq<JsonView>,
)
    requires
        answer.get("results"@) == Some(JsonView::Array(a + b)),
        first.get("results"@) == Some(JsonView::Array(a)),
        second.get("results"@) == Some(JsonView::Array(b)),
    ensures
        answer_tags(answer) == answer_tags(first) + answer_tags(second),
        a.len() == 1 ==> answer_tags(first) == (match a[0].text_at("name"@) {
            Some(name) => if name.len() > 0 {
                seq![cleaned(name)]
            } else {
                seq![]
            },
            None => seq![],
        }),
        a.len() == 0 ==> answer_tags(first).len() == 0,
{
    let f = |item: JsonView| item_tag(item);
    lemma_filter_map_add(a, b, f);
    if a.len() == 1 {
        assert(a =~= seq![a[0]]);
        lemma_filter_map_one(a[0], f);
    }
}

/// The text of an answer with tags is read as the document that it is.
pub proof fn law_tags_text(text: Seq<char>)
    ensures
        (exists|i: int| 0 <= i < text.len() && !is_space(#[trigger] text[i])) ==> (match json_text(
            text,
        ) {
            Ok(answer) => parsed_tags(text) is Ok && parsed_tags(text)->Ok_0 == answer_tags(answer),
            Err(_) => parsed_tags(text) is Err,
        }),
        (forall|i: int| 0 <= i < text.len() ==> is_space(#[trigger] text[i])) ==> parsed_tags(
            text,
        ) is Ok && parsed_tags(text)->Ok_0.len() == 0,
{
    lemma_blank(text);
}

// ---------------------------------------------------------------------------
// Pages
// ---------------------------------------------------------------------------

/// A page of a hundred rows is full, and the next page is asked for, unless it
/// is the twentieth. A shorter page is the last one.
pub proof fn law_full_pages_lead_on(job: JobView, rows: Seq<EntryView>)
    ensures
        rows.len() >= 100 && job.page < 20 ==> job.step(Ok(rows)) == JobStepView::Fetch(
            job.page + 1,
        ) && job.after(Ok(rows)) == (JobView {
            service: job.service,
            page: job.page + 1,
            rows: job.rows + rows,
        }),
        rows.len() < 100 || job.page >= 20 ==> (match job.step(Ok(rows)) {
            JobStepView::Replace { entries, .. } => entries == job.rows + rows && entries.len() > 0,
            JobStepView::Keep(_) => job.rows.len() == 0 && rows.len() == 0,
            JobStepView::Fetch(_) => false,
        }),
        forall|err: Seq<char>| (#[trigger] job.step(Err(err))) is Keep,
{
}

proof fn lemma_refresh_end(
    job: JobView,
    pages: Seq<Result<Seq<EntryView>, Seq<char>>>,
)
    requires
        pages.len() > 0,
        job.page + pages.len() <= 21,
        forall|i: int|
            0 <= i < pages.len() - 1 ==> (#[trigger] pages[i]) is Ok && pages[i]->Ok_0.len() >= 100,
        pages.last() is Ok,
        pages.last()->Ok_0.len() < 100 || job.page + pages.len() == 21,
    ensures
        refresh_end(job, pages) == Some(concluded(job.service, job.rows + page_rows(pages))),
    decreases pages.len(),
{
    let rows = pages[0]->Ok_0;
    let rest = pages.drop_first();
    if pages.len() == 1 {
        reveal_with_fuel(page_rows, 2);
        assert(job.rows + page_rows(pages) =~= job.rows + rows);
    } else {
        let next = job.after(pages[0]);
        assert(pages[0] is Ok);
        assert(job.step(pages[0]) is Fetch);
        assert forall|i: int| 0 <= i < rest.len() - 1 implies (#[trigger] rest[i]) is Ok
            && rest[i]->Ok_0.len() >= 100 by {
            assert(rest[i] == pages[i + 1]);
        }
        assert(rest.last() == pages.last());
        lemma_refresh_end(next, rest);
        assert(next.rows + page_rows(rest) =~= job.rows + page_rows(pages));
    }
}

/// A refresh that gets full pages and then a shorter one, or twenty full ones,
/// ends with all their rows, whatever their number.
pub proof fn law_refresh_takes_all_pages(
    service: Service,
    pages: Seq<Result<Seq<EntryView>, Seq<char>>>,
)
    requires
        0 < pages.len() <= 20,
        forall|i: int|
            0 <= i < pages.len() - 1 ==> (#[trigger] pages[i]) is Ok && pages[i]->Ok_0.len() >= 100,
        pages.last() is Ok,
        pages.last()->Ok_0.len() < 100 || pages.len() == 20,
    ensures
        ({
            let end = refresh_end(first_page(service), pages);
            match end {
                Some(JobStepView::Replace { entries, .. }) => entries == page_rows(pages)
                    && entries.len() > 0,
                Some(JobStepView::Keep(_)) => page_rows(pages).len() == 0,
                _ => false,
            }
        }),
{
    let job = first_page(service);
    lemma_refresh_end(job, pages);
    assert(job.rows + page_rows(pages) =~= page_rows(pages));
}

/// The rows of pages are those of each page, one behind the other.
pub proof fn law_rows_of_pages(
    pages: Seq<Result<Seq<EntryView>, Seq<char>>>,
    rows: Seq<EntryView>,
)
    ensures
        page_rows(seq![]).len() == 0,
        page_rows(pages.push(Ok(rows))) == page_rows(pages) + rows,
{
    lemma_page_rows_push(pages, Ok(rows));
}

proof fn lemma_paging(pages: Seq<Result<Seq<EntryView>, Seq<char>>>, seen: nat)
    requires
        seen <= pages.len() <= 20,
        forall|i: int|
            0 <= i < pages.len() - 1 ==> (#[trigger] pages[i]) is Ok && pages[i]->Ok_0.len() >= 100,
        seen == pages.len() ==> pages.len() == 0 || pages.last() is Ok && pages.last()->Ok_0.len()
            >= 100 && pages.len() < 20,
    ensures
        paging(pages, seen) == (if pages.len() == 0 {
            PagingView::Fetch(1)
        } else {
            match pages.last() {
                Err(err) => PagingView::Done(Err(err)),
                Ok(rows) => if rows.len() >= 100 && pages.len() < 20 {
                    PagingView::Fetch(pages.len() + 1)
                } else {
                    PagingView::Done(Ok(deduplicated(page_rows(pages))))
                },
            }
        }),
    decreases pages.len() - seen,
{
    if seen < pages.len() {
        if seen == pages.len() - 1 {
            assert(pages.take(seen as int + 1) =~= pages);
            if pages.last() is Ok && pages.last()->Ok_0.len() >= 100 && pages.len() < 20 {
                lemma_paging(pages, seen + 1);
            }
        } else {
            assert(pages[seen as int] is Ok);
            lemma_paging(pages, seen + 1);
        }
    }
}

/// Loading all pages asks for one after the other as long as they are full, at
/// most twenty, and then gives the rows of all of them, each once. A page that
/// fails is the failure of all.
pub proof fn law_paging_takes_all_pages(pages: Seq<Result<Seq<EntryView>, Seq<char>>>)
    requires
        pages.len() <= 20,
        forall|i: int|
            0 <= i < pages.len() - 1 ==> (#[trigger] pages[i]) is Ok && pages[i]->Ok_0.len() >= 100,
    ensures
        pages.len() == 0 ==> paging(pages, 0) == PagingView::Fetch(1),
        pages.len() > 0 && pages.last() is Err ==> paging(pages, 0) == PagingView::Done(
            Err(pages.last()->Err_0),
        ),
        pages.len() > 0 && pages.last() is Ok ==> {
            let full = pages.last()->Ok_0.len() >= 100;
            &&& full && pages.len() < 20 ==> paging(pages, 0) == PagingView::Fetch(pages.len() + 1)
            &&& !full || pages.len() == 20 ==> paging(pages, 0) == PagingView::Done(
                Ok(deduplicated(page_rows(pages))),
            )
        },
{
    lemma_paging(pages, 0);
}

/// GitHub is loaded page by page where there is a token or a user; else there
/// is nothing to load.
pub proof fn law_github_paging(
    config: ConfigView,
    pages: Seq<Result<Seq<EntryView>, Seq<char>>>,
)
    ensures
        config.github_token is Some || config.github_user is Some ==> github_paging(config, pages)
            == paging(pages, 0),
        config.github_token is None && config.github_user is None ==> (github_paging(
            config,
            pages,
        ) matches PagingView::Done(Ok(rows)) && rows.len() == 0),
{
}

// ---------------------------------------------------------------------------
// The connectivity test
// ---------------------------------------------------------------------------

/// The connectivity test asks for the user and then for the repositories, each
/// time with the token. It succeeds where the first answer names a user and has
/// no message, and the second is a list; then it tells the name of the user.
pub proof fn law_connectivity_test(
    config: ConfigView,
    user_text: Seq<char>,
    user: JsonView,
    repos_text: Seq<char>,
    repos: JsonView,
)
    requires
        config.github_token is Some,
        json_text(user_text) == Ok::<JsonView, Seq<char>>(user),
        json_text(repos_text) == Ok::<JsonView, Seq<char>>(repos),
        user.text_at("message"@) is None,
        user.text_at("login"@) matches Some(login) && login.len() > 0,
    ensures
        connectivity(config, seq![]) matches StepView::Ask(args) && args.last() == base_url(
            config.github_api,
        ) + "/user"@ && has_header(args, "Authorization: Bearer "@ + config.github_token->0),
        connectivity(config, seq![Ok(user_text)]) matches StepView::Ask(args) && (base_url(
            config.github_api,
        ) + "/user/repos?"@).is_prefix_of(args.last()) && has_header(
            args,
            "Authorization: Bearer "@ + config.github_token->0,
        ),
        connectivity(config, seq![Ok(user_text), Ok(repos_text)]) matches StepView::Done(outcome)
            && (outcome is Ok <==> repos is Array) && (outcome matches Ok(told) ==> told
            == "Connected as "@ + cleaned(user.text_at("login"@)->0) + ". Repository access OK."@),
{
    let first = seq![Ok::<Seq<char>, Seq<char>>(user_text)];
    let both = seq![Ok::<Seq<char>, Seq<char>>(user_text), Ok(repos_text)];
    assert(first[0] == Ok::<Seq<char>, Seq<char>>(user_text));
    assert(both[0] == Ok::<Seq<char>, Seq<char>>(user_text));
    assert(both[1] == Ok::<Seq<char>, Seq<char>>(repos_text));
    let base = base_url(config.github_api);
    law_github_token_is_sent("-sSL"@, base + "/user"@, config.github_token);
    reveal_strlit("/user/repos?");
    reveal_strlit(
        "/user/repos?per_page=1&page=1&sort=updated&affiliation=owner,collaborator,organization_member",
    );
    let path =
        "/user/repos?per_page=1&page=1&sort=updated&affiliation=owner,collaborator,organization_member"@;
    law_github_token_is_sent("-sSL"@, base + path, config.github_token);
    assert("/user/repos?"@ =~= path.take("/user/repos?"@.len() as int));
    let start = base + "/user/repos?"@;
    assert(start =~= (base + path).take(start.len() as int));
    assert(login_in(user_text) == Ok::<Seq<char>, Seq<char>>(
        cleaned(user.text_at("login"@)->0),
    ));
}

/// An answer with a message is a failure of the connectivity test that tells
/// the message, and so is one without a name.
pub proof fn law_connectivity_failures(answer: JsonView, login: Seq<char>)
    ensures
        answer.text_at("message"@) matches Some(message) ==> (message.len() > 0 ==> github_login(
            answer,
        ) == Err::<Seq<char>, Seq<char>>("GitHub user check failed: "@ + cleaned(message))),
        answer.text_at("login"@) is None ==> github_login(answer) is Err,
        answer is Object && answer.text_at("message"@) is Some && answer.text_at(
            "message"@,
        )->0.len() > 0 ==> github_access(login, answer) == Err::<Seq<char>, Seq<char>>(
            "GitHub repository check failed: "@ + cleaned(answer.text_at("message"@)->0),
        ),
        !(answer is Array) ==> github_access(login, answer) is Err,
{
}

/// A debugging run tells which page of Docker Hub it asks for and whether there
/// is a token, but not the token; without a name it tells that nothing is
/// asked. Any other run tells nothing.
pub proof fn law_dockerhub_log(config: ConfigView, token: Option<Seq<char>>, page: nat)
    ensures
        !config.debug ==> dockerhub_request_log(config, page).len() == 0,
        config.debug && config.dockerhub_username is None ==> dockerhub_request_log(config, page)
            == seq!["[dockerhub] skipped: DOCKERHUB_USERNAME not set"@],
        config.debug && config.dockerhub_username is Some ==> dockerhub_request_log(
            config,
            page,
        ).len() == 2 && dockerhub_request_log(config, page)[0] == "[dockerhub] GET "@
            + dockerhub_page_url(config.dockerhub_username->0, page),
        config.dockerhub_token is Some && token is Some ==> dockerhub_request_log(
            ConfigView { dockerhub_token: token, ..config },
            page,
        ) == dockerhub_request_log(config, page),
{
}

// ---------------------------------------------------------------------------
// What the user is told
// ---------------------------------------------------------------------------

/// The user is told of every page that holds rows, and of the end of a refresh:
/// how many entries have come, that none have, or why it failed.
pub proof fn law_refresh_messages(job: JobView, rows: Seq<EntryView>, err: Seq<char>)
    ensures
        rows.len() > 0 ==> job.progress(Ok(rows)) == Some(
            job.service.title() + " refreshing... page "@ + decimal(job.page) + " loaded ("@
                + decimal(rows.len()) + " items)."@,
        ),
        rows.len() == 0 ==> job.progress(Ok(rows)) is None,
        job.progress(Err(err)) is None,
        job.step(Err(err)) == JobStepView::Keep(job.service.title() + " refresh failed: "@ + err),
        rows.len() > 0 ==> (concluded(job.service, rows) matches JobStepView::Replace {
            cache,
            message,
            ..
        } && message == job.service.title() + " refresh complete ("@ + decimal(rows.len())
            + " items)."@ && cache == Some(job.service.cache())),
        rows.len() == 0 ==> concluded(job.service, rows) == JobStepView::Keep(
            job.service.title() + " refresh returned no entries; keeping existing data."@,
        ),
        rows.len() > 0 ==> (history_step(Ok(rows)) matches JobStepView::Replace {
            cache,
            message,
            ..
        } && message == "Browser history refreshed ("@ + decimal(rows.len()) + " items)."@ && cache
            is None),
        rows.len() == 0 ==> history_step(Ok(rows)) is Keep,
        history_step(Err(err)) == JobStepView::Keep("Browser history refresh failed: "@ + err),
{
}

/// An answer that is no document is an error that says whose it was and what is
/// wrong with it.
pub proof fn law_unreadable_answers(text: Seq<char>, err: Seq<char>)
    requires
        json_text(text) == Err::<JsonView, Seq<char>>(err),
        exists|i: int| 0 <= i < text.len() && !is_space(#[trigger] text[i]),
    ensures
        Service::GitHub.parsed(text) == Err::<Seq<EntryView>, Seq<char>>(
            "parse GitHub JSON: "@ + err,
        ),
        Service::GitLab.parsed(text) == Err::<Seq<EntryView>, Seq<char>>(
            "parse GitLab JSON: "@ + err,
        ),
        Service::DockerHub.parsed(text) == Err::<Seq<EntryView>, Seq<char>>(
            "parse DockerHub JSON: "@ + err,
        ),
        parsed_tags(text) == Err::<Seq<Seq<char>>, Seq<char>>("parse DockerHub tags JSON: "@ + err),
{
    lemma_blank(text);
}

/// A message in an answer of Docker Hub is reported, else what stands under
/// `detail`.
pub proof fn law_api_errors(answer: JsonView)
    ensures
        answer.text_at("message"@) matches Some(text) ==> (text.len() > 0 ==> api_error_line(answer)
            == Some("[dockerhub] API_ERROR: "@ + cleaned(text))),
        answer.text_at("message"@) is None ==> (answer.text_at("detail"@) matches Some(text) ==> (
        text.len() > 0 ==> api_error_line(answer) == Some(
            "[dockerhub] API_ERROR: "@ + cleaned(text),
        ))),
        answer.text_at("message"@) is None && answer.text_at("detail"@) is None ==> api_error_line(
            answer,
        ) is None,
{
}

// ---------------------------------------------------------------------------
// Whole requests
// ---------------------------------------------------------------------------

/// Every page is asked for by a request of its own, which carries the token
/// that there is. Without a token and a user there is no request to GitHub,
/// without a user none to Docker Hub.
pub proof fn law_requests_for_pages(
    config: ConfigView,
    page: nat,
    other: nat,
    token: Option<Seq<char>>,
)
    ensures
        github_request(config, page, token) is Some <==> token is Some || config.github_user
            is Some,
        github_request(config, page, token) matches Some(args) ==> asks_for_page(
            args.last(),
            page,
        ) && base_url(config.github_api).is_prefix_of(args.last()) && (token matches Some(t)
            ==> has_header(args, "Authorization: Bearer "@ + t)),
        github_request(config, page, token) is Some && page != other ==> github_request(
            config,
            page,
            token,
        ) != github_request(config, other, token),
        asks_for_page(gitlab_args(config, page).last(), page),
        base_url(config.gitlab_api).is_prefix_of(gitlab_args(config, page).last()),
        page != other ==> gitlab_args(config, page) != gitlab_args(config, other),
        dockerhub_request(config, page) is Some <==> config.dockerhub_username is Some,
        dockerhub_request(config, page) matches Some(args) ==> asks_for_page(args.last(), page)
            && (config.dockerhub_token matches Some(t) ==> has_header(
            args,
            "Authorization: JWT "@ + t,
        )),
        dockerhub_request(config, page) is Some && page != other ==> dockerhub_request(config, page)
            != dockerhub_request(config, other),
{
    let is_token = token is Some;
    law_github_page_is_asked_for(config, page, other, is_token);
    law_gitlab_page_is_asked_for(config, page, other);
    law_gitlab_token_is_sent(config, page);
    law_gitlab_token_is_sent(config, other);
    let base = base_url(config.github_api);
    if github_page_url(config, page, is_token) is Some {
        let url = github_page_url(config, page, is_token)->0;
        law_github_token_is_sent("-fsSL"@, url, token);
        law_github_token_is_sent(
            "-fsSL"@,
            github_page_url(config, other, is_token)->0,
            token,
        );
        assert(base =~= url.take(base.len() as int)) by {
            if is_token {
                let start = base + "/user/repos?per_page=100&"@;
                assert(start =~= url.take(start.len() as int));
                assert(base =~= start.take(base.len() as int));
            } else {
                let start = base + "/users/"@ + config.github_user->0
                    + "/repos?per_page=100&"@;
                assert(start =~= url.take(start.len() as int));
                assert(base =~= start.take(base.len() as int));
            }
        }
    }
    let server = base_url(config.gitlab_api);
    let start = server + "/projects?per_page=100&"@;
    let url = gitlab_page_url(config, page);
    assert(start =~= url.take(start.len() as int));
    assert(server =~= start.take(server.len() as int));
    assert(server =~= url.take(server.len() as int));
    if config.dockerhub_username is Some {
        let user = config.dockerhub_username->0;
        law_dockerhub_page_is_asked_for(user, page, other, user, user);
        law_dockerhub_token_is_sent(dockerhub_page_url(user, page), config.dockerhub_token);
        law_dockerhub_token_is_sent(dockerhub_page_url(user, other), config.dockerhub_token);
    }
}

} // verus!
