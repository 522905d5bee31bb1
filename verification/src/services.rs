//! The remote services: what they are asked, and how their answers are read.
use crate::cache::{blank, cacheable, law_entries_with_a_source_are_cacheable};
use crate::json::{json_text, models, parse_json, Json, JsonView};
use crate::models::{entry_of, law_title_normal_form, views, Entry, EntryView};
use crate::repos::{detail_with_stars, repo_detail_with_stars};
use crate::sources::{clean_text, cleaned};
use crate::text::{glue, glue3, opt_text, texts, trimmed, Class};
use vstd::prelude::*;
use vstd::string::*;

verus! {

// ---------------------------------------------------------------------------
// Answers
// ---------------------------------------------------------------------------

/// A service that lists repositories or images.
#[derive(Clone, Copy, Debug, PartialEq, Eq, Structural)]
pub enum Service {
    GitHub,
    GitLab,
    DockerHub,
}

/// The text under `key`, on one line.
pub open spec fn cleaned_at(item: JsonView, key: Seq<char>) -> Option<Seq<char>> {
    match item.text_at(key) {
        Some(text) => Some(cleaned(text)),
        None => None,
    }
}

/// A text, or nothing where there is none.
pub open spec fn or_empty(text: Option<Seq<char>>) -> Seq<char> {
    match text {
        Some(t) => t,
        None => seq![],
    }
}

/// The title of a repository: its full name, else its name, else its address.
pub open spec fn repo_title(item: JsonView, url_key: Seq<char>, title_key: Seq<char>) -> Seq<char> {
    match cleaned_at(item, title_key) {
        Some(title) => title,
        None => match cleaned_at(item, "name"@) {
            Some(name) => name,
            None => or_empty(cleaned_at(item, url_key)),
        },
    }
}

/// The repository that a JSON object describes under the given keys. Without
/// an address there is none.
pub open spec fn repo_entry(
    item: JsonView,
    url_key: Seq<char>,
    title_key: Seq<char>,
    stars_key: Seq<char>,
    source: Seq<char>,
) -> Option<EntryView> {
    let url = or_empty(cleaned_at(item, url_key));
    let title = repo_title(item, url_key, title_key);
    let stars = match item.number_at(stars_key) {
        Some(n) => n,
        None => 0,
    };
    let description = or_empty(cleaned_at(item, "description"@));
    if url.len() == 0 {
        None
    } else {
        Some(entry_of(title, url, source, detail_with_stars(description, stars)))
    }
}

/// The image that a JSON object describes. Without a name there is none.
pub open spec fn image_entry(item: JsonView) -> Option<EntryView> {
    let namespace = or_empty(cleaned_at(item, "namespace"@));
    let name = or_empty(cleaned_at(item, "name"@));
    let title = if namespace.len() == 0 {
        name
    } else {
        namespace + "/"@ + name
    };
    let source = if item.bool_at("is_private"@) == Some(true) {
        "private"@
    } else {
        "public"@
    };
    if name.len() == 0 {
        None
    } else {
        Some(
            entry_of(
                title,
                "https://hub.docker.com/r/"@ + title,
                source,
                or_empty(cleaned_at(item, "description"@)),
            ),
        )
    }
}

impl Service {
    /// The entry that an object in an answer of the service describes.
    pub open spec fn item_entry(self, item: JsonView) -> Option<EntryView> {
        match self {
            Service::GitHub => repo_entry(
                item,
                "html_url"@,
                "full_name"@,
                "stargazers_count"@,
                "github"@,
            ),
            Service::GitLab => repo_entry(
                item,
                "web_url"@,
                "path_with_namespace"@,
                "star_count"@,
                "gitlab"@,
            ),
            Service::DockerHub => image_entry(item),
        }
    }

    /// The list in an answer of the service.
    pub open spec fn list(self, answer: JsonView) -> Option<Seq<JsonView>> {
        match self {
            Service::DockerHub => answer.items_at("results"@),
            _ => answer.items(),
        }
    }

    /// The entries in an answer of the service.
    pub open spec fn entries(self, answer: JsonView) -> Seq<EntryView> {
        match self.list(answer) {
            Some(items) => items.filter_map(|item: JsonView| self.item_entry(item)),
            None => seq![],
        }
    }

    pub open spec fn complaint(self) -> Seq<char> {
        match self {
            Service::GitHub => "parse GitHub JSON: "@,
            Service::GitLab => "parse GitLab JSON: "@,
            Service::DockerHub => "parse DockerHub JSON: "@,
        }
    }

    /// The entries in the text of an answer. A blank text has none.
    pub open spec fn parsed(self, text: Seq<char>) -> Result<Seq<EntryView>, Seq<char>> {
        if blank(text) {
            Ok(seq![])
        } else {
            match json_text(text) {
                Ok(answer) => Ok(self.entries(answer)),
                Err(err) => Err(self.complaint() + err),
            }
        }
    }
}

/// The text under `key`, on one line.
pub fn clean_json_str(item: &Json, key: &str) -> (r: Option<String>)
    ensures
        opt_text(r) == cleaned_at(item.model(), key@),
{
    match item.text_at(key) {
        Some(text) => Some(clean_text(text.as_str())),
        None => None,
    }
}

pub fn text_or_empty(text: Option<String>) -> (r: String)
    ensures
        r@ == or_empty(opt_text(text)),
{
    match text {
        Some(t) => t,
        None => {
            let none = String::new();
            assert(none@ =~= seq![]);
            none
        },
    }
}

fn read_repo(item: &Json, url_key: &str, title_key: &str, stars_key: &str, source: &str) -> (r:
    Option<Entry>)
    ensures
        match r {
            Some(e) => repo_entry(item.model(), url_key@, title_key@, stars_key@, source@) == Some(
                e@,
            ),
            None => repo_entry(item.model(), url_key@, title_key@, stars_key@, source@) is None,
        },
{
    let url = text_or_empty(clean_json_str(item, url_key));
    if url.as_str().is_empty() {
        return None;
    }
    let title = match clean_json_str(item, title_key) {
        Some(title) => title,
        None => match clean_json_str(item, "name") {
            Some(name) => name,
            None => url.clone(),
        },
    };
    let description = text_or_empty(clean_json_str(item, "description"));
    let stars: u64 = match item.number_at(stars_key) {
        Some(n) => n,
        None => 0,
    };
    let detail = repo_detail_with_stars(description.as_str(), stars);
    Some(Entry::new(title.as_str(), url.as_str(), source, detail.as_str()))
}

fn read_image(item: &Json) -> (r: Option<Entry>)
    ensures
        match r {
            Some(e) => image_entry(item.model()) == Some(e@),
            None => image_entry(item.model()) is None,
        },
{
    let namespace = text_or_empty(clean_json_str(item, "namespace"));
    let name = text_or_empty(clean_json_str(item, "name"));
    if name.as_str().is_empty() {
        return None;
    }
    let description = text_or_empty(clean_json_str(item, "description"));
    let source = match item.bool_at("is_private") {
        Some(true) => "private",
        _ => "public",
    };
    let title = if namespace.as_str().is_empty() {
        name
    } else {
        glue3(namespace.as_str(), "/", name.as_str())
    };
    let url = glue("https://hub.docker.com/r/", title.as_str());
    Some(Entry::new(title.as_str(), url.as_str(), source, description.as_str()))
}

fn read_item(service: Service, item: &Json) -> (r: Option<Entry>)
    ensures
        match r {
            Some(e) => service.item_entry(item.model()) == Some(e@),
            None => service.item_entry(item.model()) is None,
        },
{
    match service {
        Service::GitHub => read_repo(item, "html_url", "full_name", "stargazers_count", "github"),
        Service::GitLab => read_repo(
            item,
            "web_url",
            "path_with_namespace",
            "star_count",
            "gitlab",
        ),
        Service::DockerHub => read_image(item),
    }
}

fn read_items(service: Service, items: &Vec<Json>) -> (r: Vec<Entry>)
    ensures
        views(r@) == models(items@).filter_map(|item: JsonView| service.item_entry(item)),
{
    let ghost all = models(items@);
    let ghost f = |item: JsonView| service.item_entry(item);
    let mut entries: Vec<Entry> = Vec::new();
    let mut i: usize = 0;
    assert(views(entries@) =~= all.take(0).filter_map(f));
    while i < items.len()
        invariant
            all == models(items@),
            f == (|item: JsonView| service.item_entry(item)),
            i <= items@.len(),
            views(entries@) == all.take(i as int).filter_map(f),
        decreases items@.len() - i,
    {
        let ghost before = entries@;
        proof {
            assert(all[i as int] == items@[i as int].model());
            all.lemma_filter_map_take_succ(f, i as int);
        }
        match read_item(service, &items[i]) {
            Some(entry) => {
                entries.push(entry);
                assert(views(entries@) =~= views(before) + seq![entry@]);
            },
            None => {
                assert(views(entries@) =~= views(before) + Seq::empty());
            },
        }
        i = i + 1;
    }
    assert(all.take(all.len() as int) =~= all);
    entries
}

/// The entries in an answer of a service.
pub fn answer_entries(service: Service, answer: &Json) -> (r: Vec<Entry>)
    ensures
        views(r@) == service.entries(answer.model()),
{
    let list = match service {
        Service::DockerHub => answer.items_at("results"),
        _ => answer.as_items(),
    };
    match list {
        Some(items) => read_items(service, items),
        None => {
            let none: Vec<Entry> = Vec::new();
            assert(views(none@) =~= seq![]);
            none
        },
    }
}

pub open spec fn parsed_view(r: Result<Vec<Entry>, String>) -> Result<Seq<EntryView>, Seq<char>> {
    match r {
        Ok(entries) => Ok(views(entries@)),
        Err(err) => Err(err@),
    }
}

fn parse_answer(service: Service, text: &str) -> (r: Result<Vec<Entry>, String>)
    ensures
        parsed_view(r) == service.parsed(text@),
{
    if trimmed(text, Class::Space).as_str().is_empty() {
        let none: Vec<Entry> = Vec::new();
        assert(views(none@) =~= seq![]);
        return Ok(none);
    }
    match parse_json(text) {
        Ok(answer) => Ok(answer_entries(service, &answer)),
        Err(err) => {
            let complaint = match service {
                Service::GitHub => "parse GitHub JSON: ",
                Service::GitLab => "parse GitLab JSON: ",
                Service::DockerHub => "parse DockerHub JSON: ",
            };
            Err(glue(complaint, err.as_str()))
        },
    }
}

/// Reads an answer of GitHub.
pub fn parse_github_entries(text: &str) -> (r: Result<Vec<Entry>, String>)
    ensures
        parsed_view(r) == Service::GitHub.parsed(text@),
{
    parse_answer(Service::GitHub, text)
}

/// Reads an answer of GitLab.
pub fn parse_gitlab_entries(text: &str) -> (r: Result<Vec<Entry>, String>)
    ensures
        parsed_view(r) == Service::GitLab.parsed(text@),
{
    parse_answer(Service::GitLab, text)
}

/// The line with which an answer that carries an error message is reported.
pub open spec fn api_error_line(answer: JsonView) -> Option<Seq<char>> {
    let message = match cleaned_at(answer, "message"@) {
        Some(message) => message,
        None => or_empty(cleaned_at(answer, "detail"@)),
    };
    if message.len() == 0 {
        None
    } else {
        Some("[dockerhub] API_ERROR: "@ + message)
    }
}

/// The report on an error message in an answer of Docker Hub.
pub fn api_error(answer: &Json) -> (r: Option<String>)
    ensures
        opt_text(r) == api_error_line(answer.model()),
{
    let message = match clean_json_str(answer, "message") {
        Some(message) => message,
        None => text_or_empty(clean_json_str(answer, "detail")),
    };
    if message.as_str().is_empty() {
        None
    } else {
        Some(glue("[dockerhub] API_ERROR: ", message.as_str()))
    }
}

/// The report on the text of an answer, in a debugging run.
pub open spec fn api_error_in(text: Seq<char>, debug: bool) -> Option<Seq<char>> {
    if !debug || blank(text) {
        None
    } else {
        match json_text(text) {
            Ok(answer) => api_error_line(answer),
            Err(_) => None,
        }
    }
}

/// Reads an answer of Docker Hub. In a debugging run an error message in it
/// is reported beside the entries.
pub fn parse_dockerhub_repo_entries(text: &str, debug: bool) -> (r: (
    Result<Vec<Entry>, String>,
    Option<String>,
))
    ensures
        parsed_view(r.0) == Service::DockerHub.parsed(text@),
        opt_text(r.1) == api_error_in(text@, debug),
{
    if trimmed(text, Class::Space).as_str().is_empty() {
        let none: Vec<Entry> = Vec::new();
        assert(views(none@) =~= seq![]);
        return (Ok(none), None);
    }
    match parse_json(text) {
        Ok(answer) => {
            let report = if debug {
                api_error(&answer)
            } else {
                None
            };
            (Ok(answer_entries(Service::DockerHub, &answer)), report)
        },
        Err(err) => (Err(glue("parse DockerHub JSON: ", err.as_str())), None),
    }
}

/// The tag that an object in an answer names.
pub open spec fn item_tag(item: JsonView) -> Option<Seq<char>> {
    match cleaned_at(item, "name"@) {
        Some(name) => if name.len() == 0 {
            None
        } else {
            Some(name)
        },
        None => None,
    }
}

/// The tags in an answer.
pub open spec fn answer_tags(answer: JsonView) -> Seq<Seq<char>> {
    match answer.items_at("results"@) {
        Some(items) => items.filter_map(|item: JsonView| item_tag(item)),
        None => seq![],
    }
}

/// The tags in the text of an answer.
pub open spec fn parsed_tags(text: Seq<char>) -> Result<Seq<Seq<char>>, Seq<char>> {
    if blank(text) {
        Ok(seq![])
    } else {
        match json_text(text) {
            Ok(answer) => Ok(answer_tags(answer)),
            Err(err) => Err("parse DockerHub tags JSON: "@ + err),
        }
    }
}

/// The tags in an answer of Docker Hub.
pub fn dockerhub_answer_tags(answer: &Json) -> (r: Vec<String>)
    ensures
        texts(r@) == answer_tags(answer.model()),
{
    let ghost f = |item: JsonView| item_tag(item);
    let mut tags: Vec<String> = Vec::new();
    assert(texts(tags@) =~= seq![]);
    match answer.items_at("results") {
        Some(items) => {
            let ghost all = models(items@);
            let mut i: usize = 0;
            assert(texts(tags@) =~= all.take(0).filter_map(f));
            while i < items.len()
                invariant
                    all == models(items@),
                    f == (|item: JsonView| item_tag(item)),
                    i <= items@.len(),
                    texts(tags@) == all.take(i as int).filter_map(f),
                decreases items@.len() - i,
            {
                let ghost before = tags@;
                proof {
                    assert(all[i as int] == items@[i as int].model());
                    all.lemma_filter_map_take_succ(f, i as int);
                }
                let mut found = false;
                if let Some(name) = clean_json_str(&items[i], "name") {
                    if !name.as_str().is_empty() {
                        found = true;
                        tags.push(name);
                        assert(texts(tags@) =~= texts(before) + seq![name@]);
                    }
                }
                if !found {
                    assert(texts(tags@) =~= texts(before) + Seq::empty());
                }
                i = i + 1;
            }
            assert(all.take(all.len() as int) =~= all);
            tags
        },
        None => tags,
    }
}

pub open spec fn tags_view(r: Result<Vec<String>, String>) -> Result<Seq<Seq<char>>, Seq<char>> {
    match r {
        Ok(tags) => Ok(texts(tags@)),
        Err(err) => Err(err@),
    }
}

/// Reads the tags in an answer of Docker Hub.
pub fn parse_dockerhub_tags(text: &str) -> (r: Result<Vec<String>, String>)
    ensures
        tags_view(r) == parsed_tags(text@),
{
    if trimmed(text, Class::Space).as_str().is_empty() {
        let none: Vec<String> = Vec::new();
        assert(texts(none@) =~= seq![]);
        return Ok(none);
    }
    match parse_json(text) {
        Ok(answer) => Ok(dockerhub_answer_tags(&answer)),
        Err(err) => Err(glue("parse DockerHub tags JSON: ", err.as_str())),
    }
}

/// What a service delivers can be stored in a cache and read back, whatever
/// detail is added to it.
pub proof fn law_remote_entries_are_cacheable(
    service: Service,
    answer: JsonView,
    i: int,
    detail: Seq<char>,
)
    requires
        0 <= i < service.entries(answer).len(),
    ensures
        cacheable(service.entries(answer)[i]),
        cacheable(EntryView { detail, ..service.entries(answer)[i] }),
{
    let items = service.list(answer)->0;
    let f = |item: JsonView| service.item_entry(item);
    let e = service.entries(answer)[i];
    assert(items.filter_map(f).contains(e));
    items.lemma_filter_map_contains(f, e);
    let item = choose|item: JsonView| items.contains(item) && #[trigger] f(item) == Some(e);
    assert(service.item_entry(item) == Some(e));
    reveal_strlit("github");
    reveal_strlit("gitlab");
    reveal_strlit("public");
    reveal_strlit("private");
    let title = match service {
        Service::DockerHub => {
            let namespace = or_empty(cleaned_at(item, "namespace"@));
            let name = or_empty(cleaned_at(item, "name"@));
            if namespace.len() == 0 {
                name
            } else {
                namespace + "/"@ + name
            }
        },
        Service::GitHub => repo_title(item, "html_url"@, "full_name"@),
        Service::GitLab => repo_title(item, "web_url"@, "path_with_namespace"@),
    };
    law_title_normal_form(title);
    law_entries_with_a_source_are_cacheable(e);
    law_entries_with_a_source_are_cacheable(EntryView { detail, ..e });
}

} // verus!
