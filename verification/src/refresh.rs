//! Refreshing the sources: when a refresh starts, and what each page of rows
//! leads to.
use crate::cache::{cached_remote, file_text, load_cached_remote_with_refresh_check};
use crate::config::{Config, ConfigView, RuntimeConfig};
use crate::models::{views, Entry, EntryView};
use crate::services::{parsed_view, Service};
use crate::sources::{add_rows, deduplicate, deduplicated};
use crate::text::{decimal, decimal_of, glue, glue3, opt_text, texts};
use vstd::prelude::*;
use vstd::string::*;

verus! {

/// A source that can be refreshed.
#[derive(Clone, Copy, Debug, PartialEq, Eq, Structural)]
pub enum RefreshRequest {
    History,
    GitHub,
    GitLab,
    DockerHub,
}

impl RefreshRequest {
    pub open spec fn title(self) -> Seq<char> {
        match self {
            RefreshRequest::History => "History"@,
            RefreshRequest::GitHub => "GitHub"@,
            RefreshRequest::GitLab => "GitLab"@,
            RefreshRequest::DockerHub => "DockerHub"@,
        }
    }

    /// The name of the source in messages.
    pub fn name(self) -> (r: &'static str)
        ensures
            r@ == self.title(),
    {
        match self {
            RefreshRequest::History => "History",
            RefreshRequest::GitHub => "GitHub",
            RefreshRequest::GitLab => "GitLab",
            RefreshRequest::DockerHub => "DockerHub",
        }
    }

    /// Whether the source is switched on.
    pub open spec fn switched_on(self, switches: RuntimeConfig) -> bool {
        match self {
            RefreshRequest::History => switches.browser,
            RefreshRequest::GitHub => switches.github,
            RefreshRequest::GitLab => switches.gitlab,
            RefreshRequest::DockerHub => switches.dockerhub,
        }
    }
}

/// Whether a request may start a refresh; if not, what the user is told.
pub fn admit_request(request: RefreshRequest, switches: &RuntimeConfig) -> (r: Option<String>)
    ensures
        opt_text(r) == (if request.switched_on(*switches) {
            None
        } else {
            Some(request.title() + " source is disabled."@)
        }),
{
    let enabled = match request {
        RefreshRequest::History => switches.include_browser(),
        RefreshRequest::GitHub => switches.include_github(),
        RefreshRequest::GitLab => switches.include_gitlab(),
        RefreshRequest::DockerHub => switches.include_dockerhub(),
    };
    if enabled {
        None
    } else {
        Some(glue(request.name(), " source is disabled."))
    }
}

// ---------------------------------------------------------------------------
// One refresh of a source at a time
// ---------------------------------------------------------------------------

/// Which sources are being refreshed.
#[derive(Clone, Copy, Debug, PartialEq, Eq, Structural)]
pub struct RefreshState {
    pub history: bool,
    pub github: bool,
    pub gitlab: bool,
    pub dockerhub: bool,
}

impl Default for RefreshState {
    fn default() -> (r: Self)
        ensures
            r == (RefreshState { history: false, github: false, gitlab: false, dockerhub: false }),
    {
        RefreshState { history: false, github: false, gitlab: false, dockerhub: false }
    }
}

/// What a request for a refresh does, and what the user is told. It starts a
/// refresh where nothing is told.
pub open spec fn request_taken(
    state: RefreshState,
    request: RefreshRequest,
    switches: RuntimeConfig,
) -> (RefreshState, Option<Seq<char>>) {
    if !request.switched_on(switches) {
        (state, Some(request.title() + " source is disabled."@))
    } else if state.busy(request) {
        (state, Some(request.title() + " is already refreshing."@))
    } else {
        (state.marked(request, true), None)
    }
}

impl RefreshState {
    /// Whether a source is being refreshed.
    pub open spec fn busy(self, request: RefreshRequest) -> bool {
        match request {
            RefreshRequest::History => self.history,
            RefreshRequest::GitHub => self.github,
            RefreshRequest::GitLab => self.gitlab,
            RefreshRequest::DockerHub => self.dockerhub,
        }
    }

    /// The state with one source marked as being refreshed, or not.
    pub open spec fn marked(self, request: RefreshRequest, busy: bool) -> RefreshState {
        match request {
            RefreshRequest::History => RefreshState { history: busy, ..self },
            RefreshRequest::GitHub => RefreshState { github: busy, ..self },
            RefreshRequest::GitLab => RefreshState { gitlab: busy, ..self },
            RefreshRequest::DockerHub => RefreshState { dockerhub: busy, ..self },
        }
    }

    fn set(&mut self, request: RefreshRequest, busy: bool)
        ensures
            *final(self) == old(self).marked(request, busy),
    {
        match request {
            RefreshRequest::History => self.history = busy,
            RefreshRequest::GitHub => self.github = busy,
            RefreshRequest::GitLab => self.gitlab = busy,
            RefreshRequest::DockerHub => self.dockerhub = busy,
        }
    }

    /// Marks a source as being refreshed. If it already is, nothing changes
    /// and the message says so.
    pub fn try_mark_refreshing(&mut self, request: RefreshRequest) -> (r: Option<String>)
        ensures
            *final(self) == old(self).marked(request, true),
            opt_text(r) == (if old(self).busy(request) {
                Some(request.title() + " is already refreshing."@)
            } else {
                None
            }),
    {
        let busy = match request {
            RefreshRequest::History => self.history,
            RefreshRequest::GitHub => self.github,
            RefreshRequest::GitLab => self.gitlab,
            RefreshRequest::DockerHub => self.dockerhub,
        };
        if busy {
            Some(glue(request.name(), " is already refreshing."))
        } else {
            self.set(request, true);
            None
        }
    }

    /// Takes a request for a refresh. It starts one if the source is switched
    /// on and not being refreshed; if not, the message says why.
    pub fn take_request(&mut self, request: RefreshRequest, switches: &RuntimeConfig) -> (r: Option<
        String,
    >)
        ensures
            (*final(self), opt_text(r)) == request_taken(*old(self), request, *switches),
            opt_text(r) == (if !request.switched_on(*switches) {
                Some(request.title() + " source is disabled."@)
            } else if old(self).busy(request) {
                Some(request.title() + " is already refreshing."@)
            } else {
                None
            }),
            *final(self) == (if request.switched_on(*switches) {
                old(self).marked(request, true)
            } else {
                *old(self)
            }),
    {
        match admit_request(request, switches) {
            Some(message) => Some(message),
            None => self.try_mark_refreshing(request),
        }
    }

    /// Marks the refresh of a source as over.
    pub fn finish(&mut self, request: RefreshRequest)
        ensures
            *final(self) == old(self).marked(request, false),
    {
        self.set(request, false);
    }
}

/// Marking one source says nothing about the others, and what is marked can be
/// started again only after it has been finished.
pub proof fn law_one_refresh_at_a_time(
    state: RefreshState,
    request: RefreshRequest,
    other: RefreshRequest,
)
    ensures
        state.marked(request, true).busy(request),
        !state.marked(request, false).busy(request),
        other != request ==> state.marked(request, true).busy(other) == state.busy(other),
        other != request ==> state.marked(request, false).busy(other) == state.busy(other),
        !state.busy(request) ==> state.marked(request, true).marked(request, false) == state,
{
}

// ---------------------------------------------------------------------------
// A remote source, page by page
// ---------------------------------------------------------------------------

/// A running refresh of a remote source: the page that is awaited, and the
/// rows that have come.
#[derive(Debug)]
pub struct RemoteJob {
    pub service: Service,
    pub page: usize,
    pub rows: Vec<Entry>,
}

/// What a running refresh holds.
#[verifier::ext_equal]
pub struct JobView {
    pub service: Service,
    pub page: nat,
    pub rows: Seq<EntryView>,
}

impl View for RemoteJob {
    type V = JobView;

    open spec fn view(&self) -> JobView {
        JobView { service: self.service, page: self.page as nat, rows: views(self.rows@) }
    }
}

/// What a refresh does next.
#[derive(Debug)]
pub enum JobStep {
    /// Load this page.
    Fetch(usize),
    /// Leave the entries as they are and tell why.
    Keep(String),
    /// Put `entries` in the place of all entries of `sources`, after storing
    /// them in a cache where one is named, and tell the message.
    Replace { cache: Option<String>, sources: Vec<String>, entries: Vec<Entry>, message: String },
}

/// What a step holds.
pub enum JobStepView {
    Fetch(nat),
    Keep(Seq<char>),
    Replace {
        cache: Option<Seq<char>>,
        sources: Seq<Seq<char>>,
        entries: Seq<EntryView>,
        message: Seq<char>,
    },
}

impl View for JobStep {
    type V = JobStepView;

    open spec fn view(&self) -> JobStepView {
        match self {
            JobStep::Fetch(page) => JobStepView::Fetch(*page as nat),
            JobStep::Keep(message) => JobStepView::Keep(message@),
            JobStep::Replace { cache, sources, entries, message } => JobStepView::Replace {
                cache: opt_text(*cache),
                sources: texts(sources@),
                entries: views(entries@),
                message: message@,
            },
        }
    }
}

impl Service {
    pub open spec fn title(self) -> Seq<char> {
        match self {
            Service::GitHub => "GitHub"@,
            Service::GitLab => "GitLab"@,
            Service::DockerHub => "DockerHub"@,
        }
    }

    /// The name of the service's cache.
    pub open spec fn cache(self) -> Seq<char> {
        match self {
            Service::GitHub => "github"@,
            Service::GitLab => "gitlab"@,
            Service::DockerHub => "dockerhub"@,
        }
    }

    /// The sources that the service's entries belong to.
    pub open spec fn sources(self) -> Seq<Seq<char>> {
        match self {
            Service::GitHub => seq!["github"@],
            Service::GitLab => seq!["gitlab"@],
            Service::DockerHub => seq!["public"@, "private"@],
        }
    }

    pub fn name(self) -> (r: &'static str)
        ensures
            r@ == self.title(),
    {
        match self {
            Service::GitHub => "GitHub",
            Service::GitLab => "GitLab",
            Service::DockerHub => "DockerHub",
        }
    }

    pub fn cache_name(self) -> (r: &'static str)
        ensures
            r@ == self.cache(),
    {
        match self {
            Service::GitHub => "github",
            Service::GitLab => "gitlab",
            Service::DockerHub => "dockerhub",
        }
    }

    fn source_names(self) -> (r: Vec<String>)
        ensures
            texts(r@) == self.sources(),
    {
        match self {
            Service::GitHub => {
                let names = vec!["github".to_string()];
                assert(texts(names@) =~= self.sources());
                names
            },
            Service::GitLab => {
                let names = vec!["gitlab".to_string()];
                assert(texts(names@) =~= self.sources());
                names
            },
            Service::DockerHub => {
                let names = vec!["public".to_string(), "private".to_string()];
                assert(texts(names@) =~= self.sources());
                names
            },
        }
    }
}

/// The end of a refresh that has loaded all its pages.
pub open spec fn concluded(service: Service, rows: Seq<EntryView>) -> JobStepView {
    if rows.len() == 0 {
        JobStepView::Keep(
            service.title() + " refresh returned no entries; keeping existing data."@,
        )
    } else {
        JobStepView::Replace {
            cache: Some(service.cache()),
            sources: service.sources(),
            entries: rows,
            message: service.title() + " refresh complete ("@ + decimal(rows.len()) + " items)."@,
        }
    }
}

impl JobView {
    /// The refresh after a page has come.
    pub open spec fn after(self, outcome: Result<Seq<EntryView>, Seq<char>>) -> JobView {
        match outcome {
            Err(_) => self,
            Ok(rows) => if rows.len() < 100 || self.page >= 20 {
                JobView { rows: self.rows + rows, ..self }
            } else {
                JobView { page: self.page + 1, rows: self.rows + rows, ..self }
            },
        }
    }

    /// What follows from a page: the next page after a full one, up to the
    /// twentieth; else the end.
    pub open spec fn step(self, outcome: Result<Seq<EntryView>, Seq<char>>) -> JobStepView {
        match outcome {
            Err(err) => JobStepView::Keep(self.service.title() + " refresh failed: "@ + err),
            Ok(rows) => if rows.len() < 100 || self.page >= 20 {
                concluded(self.service, self.rows + rows)
            } else {
                JobStepView::Fetch(self.page + 1)
            },
        }
    }

    /// What the user is told about a page that holds rows.
    pub open spec fn progress(self, outcome: Result<Seq<EntryView>, Seq<char>>) -> Option<
        Seq<char>,
    > {
        match outcome {
            Err(_) => None,
            Ok(rows) => if rows.len() == 0 {
                None
            } else {
                Some(
                    self.service.title() + " refreshing... page "@ + decimal(self.page)
                        + " loaded ("@ + decimal(rows.len()) + " items)."@,
                )
            },
        }
    }
}

/// A refresh that has just begun: it awaits the first page and has no rows.
pub open spec fn first_page(service: Service) -> JobView {
    JobView { service, page: 1, rows: seq![] }
}

impl RemoteJob {
    /// Starts a refresh of a source that is still switched on, with what the
    /// user is told. A source that is switched off is left alone.
    pub fn begin(service: Service, enabled: bool) -> (r: Option<(RemoteJob, String)>)
        ensures
            match r {
                Some((job, message)) => enabled && job@ == first_page(service) && job@ == (JobView {
                    service,
                    page: 1,
                    rows: seq![],
                }) && message@ == "Refreshing "@ + service.title() + " in background..."@,
                None => !enabled,
            },
    {
        if !enabled {
            return None;
        }
        let job = RemoteJob { service, page: 1, rows: Vec::new() };
        assert(views(job.rows@) =~= seq![]);
        Some((job, glue3("Refreshing ", service.name(), " in background...")))
    }

    fn conclude(&mut self) -> (r: JobStep)
        ensures
            r@ == concluded(old(self)@.service, old(self)@.rows),
            final(self)@ == (JobView { rows: seq![], ..old(self)@ }),
    {
        let service = self.service;
        let count = self.rows.len();
        let mut rows: Vec<Entry> = Vec::new();
        rows.append(&mut self.rows);
        assert(views(self.rows@) =~= seq![]);
        assert(rows@ =~= old(self).rows@);
        if count == 0 {
            return JobStep::Keep(
                glue(service.name(), " refresh returned no entries; keeping existing data."),
            );
        }
        let mut message = glue3(
            service.name(),
            " refresh complete (",
            decimal_of(count as u64).as_str(),
        );
        message.append(" items).");
        JobStep::Replace {
            cache: Some(service.cache_name().to_string()),
            sources: service.source_names(),
            entries: rows,
            message,
        }
    }

    /// Takes the page that was awaited. Gives what to do next, and what the
    /// user is told first, if anything. The job is spent after its last step.
    pub fn take_page(&mut self, outcome: Result<Vec<Entry>, String>) -> (r: (
        Option<String>,
        JobStep,
    ))
        requires
            old(self).page <= 20,
        ensures
            opt_text(r.0) == old(self)@.progress(parsed_view(outcome)),
            r.1@ == old(self)@.step(parsed_view(outcome)),
            r.1 is Fetch ==> final(self)@ == old(self)@.after(parsed_view(outcome)),
            final(self).page <= 20,
            final(self).service == old(self).service,
    {
        let rows = match outcome {
            Ok(rows) => rows,
            Err(err) => return (
                None,
                JobStep::Keep(glue3(self.service.name(), " refresh failed: ", err.as_str())),
            ),
        };
        let ghost before = self@;
        let ghost page_rows = views(rows@);
        let row_count = rows.len();
        let mut rows = rows;
        self.rows.append(&mut rows);
        assert(views(self.rows@) =~= before.rows + page_rows);
        if row_count == 0 {
            return (None, self.conclude());
        }
        let mut told = glue3(
            self.service.name(),
            " refreshing... page ",
            decimal_of(self.page as u64).as_str(),
        );
        told.append(" loaded (");
        told.append(decimal_of(row_count as u64).as_str());
        told.append(" items).");
        if row_count < 100 || self.page >= 20 {
            return (Some(told), self.conclude());
        }
        self.page = self.page + 1;
        (Some(told), JobStep::Fetch(self.page))
    }
}

/// The step that ends a refresh, from the page that is awaited on; `None`
/// while more pages are needed.
pub open spec fn refresh_end(
    job: JobView,
    pages: Seq<Result<Seq<EntryView>, Seq<char>>>,
) -> Option<JobStepView>
    decreases pages.len(),
{
    if pages.len() == 0 {
        None
    } else if job.step(pages[0]) is Fetch {
        refresh_end(job.after(pages[0]), pages.drop_first())
    } else {
        Some(job.step(pages[0]))
    }
}

/// The rows of pages, one page behind the other.
pub open spec fn page_rows(pages: Seq<Result<Seq<EntryView>, Seq<char>>>) -> Seq<EntryView>
    decreases pages.len(),
{
    if pages.len() == 0 {
        seq![]
    } else {
        match pages[0] {
            Ok(rows) => rows + page_rows(pages.drop_first()),
            Err(_) => page_rows(pages.drop_first()),
        }
    }
}

/// A refresh asks for no page beyond the twentieth.
pub proof fn law_refresh_is_bounded(job: JobView, outcome: Result<Seq<EntryView>, Seq<char>>)
    requires
        job.page <= 20,
    ensures
        job.step(outcome) matches JobStepView::Fetch(page) ==> page <= 20 && page == job.page + 1
            && job.after(outcome).page == page,
{
}

/// A refresh replaces entries only by the rows of pages that all came, and
/// never by none. A failed page, or no rows at all, leaves everything as it is.
pub proof fn law_refresh_keeps_or_replaces(
    job: JobView,
    pages: Seq<Result<Seq<EntryView>, Seq<char>>>,
)
    ensures
        match refresh_end(job, pages) {
            Some(JobStepView::Replace { cache, sources, entries, message }) => entries.len() > 0
                && cache == Some(job.service.cache()) && sources == job.service.sources() && (exists|
                n: int,
            |
                0 < n <= pages.len() && entries == job.rows + page_rows(#[trigger] pages.take(n))
                    && forall|i: int| 0 <= i < n ==> (#[trigger] pages[i]) is Ok),
            Some(JobStepView::Keep(_)) => true,
            Some(JobStepView::Fetch(_)) => false,
            None => true,
        },
    decreases pages.len(),
{
    if pages.len() > 0 {
        let first = pages[0];
        let rest = pages.drop_first();
        if job.step(first) is Fetch {
            let next = job.after(first);
            law_refresh_keeps_or_replaces(next, rest);
            if let Some(JobStepView::Replace { cache, sources, entries, message }) = refresh_end(
                job,
                pages,
            ) {
                let m = choose|m: int|
                    0 < m <= rest.len() && entries == next.rows + page_rows(#[trigger] rest.take(m))
                        && forall|i: int| 0 <= i < m ==> (#[trigger] rest[i]) is Ok;
                let n = m + 1;
                assert(pages.take(n).drop_first() =~= rest.take(m));
                assert(entries =~= job.rows + page_rows(pages.take(n)));
                assert forall|i: int| 0 <= i < n implies (#[trigger] pages[i]) is Ok by {
                    if i > 0 {
                        assert(rest[i - 1] is Ok);
                    }
                }
            }
        } else if let Ok(rows) = first {
            let one = pages.take(1);
            assert(one.drop_first() =~= seq![]);
            assert(page_rows(one.drop_first()) =~= seq![]);
            assert(page_rows(one) =~= rows);
        }
    }
}

// ---------------------------------------------------------------------------
// Loading all pages at once
// ---------------------------------------------------------------------------

/// What to do after some pages have come.
#[derive(Debug)]
pub enum Paging {
    /// Load this page.
    Fetch(usize),
    /// All entries are there, or loading failed.
    Done(Result<Vec<Entry>, String>),
}

pub enum PagingView {
    Fetch(nat),
    Done(Result<Seq<EntryView>, Seq<char>>),
}

impl View for Paging {
    type V = PagingView;

    open spec fn view(&self) -> PagingView {
        match self {
            Paging::Fetch(page) => PagingView::Fetch(*page as nat),
            Paging::Done(rows) => PagingView::Done(parsed_view(*rows)),
        }
    }
}

pub open spec fn page_views(pages: Seq<Result<Vec<Entry>, String>>) -> Seq<
    Result<Seq<EntryView>, Seq<char>>,
> {
    pages.map_values(|p: Result<Vec<Entry>, String>| parsed_view(p))
}

/// What follows from the pages that have come, when the first `seen` of them
/// were full: the next page after a full one, up to the twentieth; after a
/// short one the entries of all, each once.
pub open spec fn paging(pages: Seq<Result<Seq<EntryView>, Seq<char>>>, seen: nat) -> PagingView
    decreases pages.len() - seen,
{
    if seen >= pages.len() {
        PagingView::Fetch(seen + 1)
    } else {
        match pages[seen as int] {
            Err(err) => PagingView::Done(Err(err)),
            Ok(rows) => if rows.len() < 100 || seen + 1 >= 20 {
                PagingView::Done(Ok(deduplicated(page_rows(pages.take(seen as int + 1)))))
            } else {
                paging(pages, seen + 1)
            },
        }
    }
}

/// The rows of a further page stand behind those of the pages before it.
pub proof fn lemma_page_rows_push(
    pages: Seq<Result<Seq<EntryView>, Seq<char>>>,
    page: Result<Seq<EntryView>, Seq<char>>,
)
    ensures
        page_rows(pages.push(page)) == page_rows(pages) + (match page {
            Ok(rows) => rows,
            Err(_) => seq![],
        }),
    decreases pages.len(),
{
    let all = pages.push(page);
    if pages.len() == 0 {
        assert(all.drop_first() =~= seq![]);
        assert(page_rows(all.drop_first()) =~= seq![]);
        assert(page_rows(all) =~= page_rows(pages) + (match page {
            Ok(rows) => rows,
            Err(_) => seq![],
        }));
    } else {
        let rest = pages.drop_first();
        assert(all.drop_first() =~= rest.push(page));
        lemma_page_rows_push(rest, page);
        assert(page_rows(all) =~= page_rows(pages) + (match page {
            Ok(rows) => rows,
            Err(_) => seq![],
        }));
    }
}

fn next_page(pages: &Vec<Result<Vec<Entry>, String>>) -> (r: Paging)
    ensures
        r@ == paging(page_views(pages@), 0),
{
    let ghost all = page_views(pages@);
    let mut entries: Vec<Entry> = Vec::new();
    let mut i: usize = 0;
    assert(views(entries@) =~= page_rows(all.take(0)));
    while i < pages.len()
        invariant
            all == page_views(pages@),
            i <= pages@.len(),
            i < 20,
            views(entries@) == page_rows(all.take(i as int)),
            paging(all, 0) == paging(all, i as nat),
        decreases pages@.len() - i,
    {
        assert(all[i as int] == parsed_view(pages@[i as int]));
        match &pages[i] {
            Err(err) => {
                return Paging::Done(Err(err.clone()));
            },
            Ok(rows) => {
                add_rows(&mut entries, rows);
                proof {
                    lemma_page_rows_push(all.take(i as int), all[i as int]);
                    assert(all.take(i as int).push(all[i as int]) =~= all.take(i + 1));
                }
                if rows.len() < 100 || i + 1 >= 20 {
                    return Paging::Done(Ok(deduplicate(entries)));
                }
            },
        }
        i = i + 1;
    }
    Paging::Fetch(i + 1)
}

/// What to load next of the repositories on GitHub.
pub open spec fn github_paging(
    config: ConfigView,
    pages: Seq<Result<Seq<EntryView>, Seq<char>>>,
) -> PagingView {
    if config.github_token is Some || config.github_user is Some {
        paging(pages, 0)
    } else {
        PagingView::Done(Ok(seq![]))
    }
}

/// What to load next of the repositories on GitHub. Without a token or a user
/// there are none.
pub fn load_github_entries(config: &Config, pages: &Vec<Result<Vec<Entry>, String>>) -> (r: Paging)
    ensures
        r@ == github_paging(config@, page_views(pages@)),
        r@ == (if config@.github_token is Some || config@.github_user is Some {
            paging(page_views(pages@), 0)
        } else {
            PagingView::Done(Ok(seq![]))
        }),
{
    if config.github_token.is_some() || config.github_user.is_some() {
        next_page(pages)
    } else {
        let none: Vec<Entry> = Vec::new();
        assert(views(none@) =~= seq![]);
        Paging::Done(Ok(none))
    }
}

/// What to load next of the projects on GitLab.
pub fn load_gitlab_entries(pages: &Vec<Result<Vec<Entry>, String>>) -> (r: Paging)
    ensures
        r@ == paging(page_views(pages@), 0),
{
    next_page(pages)
}

/// Loading asks for the pages one after the other, and for no page beyond the
/// twentieth.
pub proof fn law_paging_is_bounded(pages: Seq<Result<Seq<EntryView>, Seq<char>>>, seen: nat)
    requires
        seen < 20,
        seen <= pages.len(),
    ensures
        paging(pages, seen) matches PagingView::Fetch(page) ==> page == pages.len() + 1 && page
            <= 20,
    decreases pages.len() - seen,
{
    if seen < pages.len() && pages[seen as int] is Ok && pages[seen as int]->Ok_0.len() >= 100
        && seen + 1 < 20 {
        law_paging_is_bounded(pages, seen + 1);
    }
}

// ---------------------------------------------------------------------------
// The browsers
// ---------------------------------------------------------------------------

/// The signature that is remembered after the files of the browsers have been
/// looked at, and whether they have changed.
pub open spec fn looked_at(last: Option<u64>, signature: Option<u64>) -> (Option<u64>, bool) {
    match signature {
        Some(_) => (signature, signature != last),
        None => (last, false),
    }
}

/// Whether the files of the browsers have changed since they were last looked
/// at: their signature is another one. Without files there is no signature,
/// and nothing has changed.
pub fn browser_changed(last: &mut Option<u64>, signature: Option<u64>) -> (r: bool)
    ensures
        (*final(last), r) == looked_at(*old(last), signature),
        r == (signature is Some && signature != *old(last)),
        *final(last) == (if signature is Some {
            signature
        } else {
            *old(last)
        }),
{
    match signature {
        None => false,
        Some(now) => {
            let changed = match *last {
                Some(before) => before != now,
                None => true,
            };
            *last = Some(now);
            changed
        },
    }
}

/// The end of a refresh of the browsers' entries.
pub open spec fn history_step(outcome: Result<Seq<EntryView>, Seq<char>>) -> JobStepView {
    match outcome {
        Err(err) => JobStepView::Keep("Browser history refresh failed: "@ + err),
        Ok(rows) => if rows.len() == 0 {
            JobStepView::Keep(
                "Browser history refresh returned no entries; keeping existing data."@,
            )
        } else {
            JobStepView::Replace {
                cache: None,
                sources: seq!["history"@, "browser-history"@, "bookmark"@],
                entries: rows,
                message: "Browser history refreshed ("@ + decimal(rows.len()) + " items)."@,
            }
        },
    }
}

/// A refresh of the browsers' entries replaces them only by what was read, and
/// never by none.
pub proof fn law_history_keeps_or_replaces(outcome: Result<Seq<EntryView>, Seq<char>>)
    ensures
        match history_step(outcome) {
            JobStepView::Replace { cache, sources, entries, message } => entries.len() > 0
                && outcome == Ok::<Seq<EntryView>, Seq<char>>(entries) && cache is None,
            JobStepView::Keep(_) => outcome is Err || outcome->Ok_0.len() == 0,
            JobStepView::Fetch(_) => false,
        },
{
}

/// What a refresh of the browsers' entries leads to.
pub fn history_refreshed(outcome: Result<Vec<Entry>, String>) -> (r: JobStep)
    ensures
        r@ == history_step(parsed_view(outcome)),
{
    match outcome {
        Err(err) => JobStep::Keep(glue("Browser history refresh failed: ", err.as_str())),
        Ok(rows) => {
            assert(views(rows@).len() == rows@.len());
            if rows.len() == 0 {
                return JobStep::Keep(
                    "Browser history refresh returned no entries; keeping existing data.".to_string(),
                );
            }
            let sources = vec![
                "history".to_string(),
                "browser-history".to_string(),
                "bookmark".to_string(),
            ];
            assert(texts(sources@) =~= seq!["history"@, "browser-history"@, "bookmark"@]);
            let message = glue3(
                "Browser history refreshed (",
                decimal_of(rows.len() as u64).as_str(),
                " items).",
            );
            JobStep::Replace { cache: None, sources, entries: rows, message }
        },
    }
}

/// The entries of a remote source at the start: those in its cache. A source
/// without entries, or with a cache that is due, is refreshed at once.
pub open spec fn start_rows(
    included: bool,
    file: Option<Seq<char>>,
    age: Option<u64>,
    interval: u64,
) -> (Seq<EntryView>, bool) {
    if included {
        let (rows, old) = cached_remote(file, age, Some(interval));
        (rows, rows.len() == 0 || old)
    } else {
        (seq![], false)
    }
}

/// The entries of a remote source at the start, and whether to refresh it at
/// once. A source that is switched off has none and is not refreshed.
pub fn startup_rows(included: bool, file: Option<&str>, age: Option<u64>, interval: u64) -> (r: (
    Vec<Entry>,
    bool,
))
    ensures
        (views(r.0@), r.1) == start_rows(included, file_text(file), age, interval),
        included ==> views(r.0@) == cached_remote(file_text(file), age, Some(interval)).0 && r.1
            == (r.0@.len() == 0 || cached_remote(file_text(file), age, Some(interval)).1),
        !included ==> r.0@.len() == 0 && !r.1,
{
    if included {
        load_cached_remote_with_refresh_check(file, age, interval)
    } else {
        let none: Vec<Entry> = Vec::new();
        assert(views(none@) =~= seq![]);
        (none, false)
    }
}

/// Which sources to refresh at the start.
pub open spec fn due_requests(github: bool, gitlab: bool, dockerhub: bool) -> Seq<RefreshRequest> {
    (if github {
        seq![RefreshRequest::GitHub]
    } else {
        seq![]
    }) + (if gitlab {
        seq![RefreshRequest::GitLab]
    } else {
        seq![]
    }) + (if dockerhub {
        seq![RefreshRequest::DockerHub]
    } else {
        seq![]
    })
}

/// The entries at the start, those of the browsers first.
pub open spec fn start_entries<T>(
    browser: Seq<T>,
    github: Seq<T>,
    gitlab: Seq<T>,
    dockerhub: Seq<T>,
) -> Seq<T> {
    browser + github + gitlab + dockerhub
}

/// The entries at the start, those of the browsers first, and the sources to
/// refresh at once.
pub fn startup(
    browser: Vec<Entry>,
    github: (Vec<Entry>, bool),
    gitlab: (Vec<Entry>, bool),
    dockerhub: (Vec<Entry>, bool),
) -> (r: (Vec<Entry>, Vec<RefreshRequest>))
    ensures
        r.0@ == start_entries(browser@, github.0@, gitlab.0@, dockerhub.0@),
        r.0@ == browser@ + github.0@ + gitlab.0@ + dockerhub.0@,
        r.1@ == due_requests(github.1, gitlab.1, dockerhub.1),
{
    let ghost goal = start_entries(browser@, github.0@, gitlab.0@, dockerhub.0@);
    let mut entries = browser;
    let (mut rows, github_due) = github;
    entries.append(&mut rows);
    let (mut rows, gitlab_due) = gitlab;
    entries.append(&mut rows);
    let (mut rows, dockerhub_due) = dockerhub;
    entries.append(&mut rows);
    let mut requests: Vec<RefreshRequest> = Vec::new();
    if github_due {
        requests.push(RefreshRequest::GitHub);
    }
    if gitlab_due {
        requests.push(RefreshRequest::GitLab);
    }
    if dockerhub_due {
        requests.push(RefreshRequest::DockerHub);
    }
    assert(entries@ =~= goal);
    assert(requests@ =~= due_requests(github_due, gitlab_due, dockerhub_due));
    (entries, requests)
}

/// A change of the browsers' files is noticed, and noticed once: looking again
/// at the same files finds no change. Where there are no files, nothing has
/// changed and nothing is forgotten.
pub proof fn law_changes_are_noticed_once(last: Option<u64>, now: u64, later: u64)
    ensures
        looked_at(last, Some(now)).1 <==> last != Some(now),
        !looked_at(looked_at(last, Some(now)).0, Some(now)).1,
        looked_at(looked_at(last, Some(now)).0, Some(later)).1 <==> later != now,
        !looked_at(last, None).1,
        looked_at(looked_at(last, None).0, Some(now)) == looked_at(last, Some(now)),
{
}

} // verus!
