//! What holds of entries on their way from a source to a tab.
use crate::bookmark_laws::{law_chromium_entries_are_bookmarks, law_safari_entries_are_bookmarks};
use crate::bookmarks::{chromium_file, safari_file};
use crate::cache::{cache_text, cacheable, law_saved_entries_are_shown, CacheView};
use crate::cache::{lemma_first_line, lemma_next_field};
use crate::config::{Config, RuntimeConfig};
use crate::json::{json_text, JsonView};
use crate::matchers::matched;
use crate::models::{law_title_normal_form, plain_title, views, Entry, EntryView};
use crate::rank::{boost, lemma_filter_map_keeps};
use crate::refresh::{concluded, due_requests, history_step, law_one_refresh_at_a_time};
use crate::refresh::{request_taken, start_entries, start_rows, JobStepView, RefreshRequest};
use crate::refresh::RefreshState;
use crate::services::Service;
use crate::sources::{all_delivered, browser_deliveries, cleaned, deduplicated, delivered};
use crate::sources::{enabled_deliveries, has_key, law_deduplicated, law_failures_leave_the_others};
use crate::sources::{all_failures, denied, failure, other_failure, permission_denied};
use crate::sources::{first_ones, is_first, law_deduplicate_keeps_the_first};
use crate::sources::{safari_reports, sqlite_entries, tsv_entries, tsv_entry, DeliveryView, RemoteRows};
use crate::state::{replaced, AppView};
use crate::state_laws::{law_results, lemma_recomputed_keeps};
use crate::tabs::{law_tabs_are_disjoint, shown_count, Tab};
use crate::text::{is_format_mark, is_space, lemma_first_of_none, lemma_trim_end, lines};
use crate::text::{lemma_first_of_is, lemma_trim_ends, lemma_trim_start, lowercase, occurs_at};
use crate::text::{splitn, trim, trim_start, Class};
use vstd::prelude::*;
use vstd::string::*;

verus! {

// ---------------------------------------------------------------------------
// Sources and tabs
// ---------------------------------------------------------------------------

proof fn lemma_source_names()
    ensures
        "history"@.len() == 7,
        "browser-history"@.len() == 15,
        "bookmark"@.len() == 8,
        "public"@.len() == 6,
        "private"@.len() == 7,
        "github"@.len() == 6,
        "gitlab"@.len() == 6,
        "history"@ != "private"@,
        "public"@ != "github"@,
        "public"@ != "gitlab"@,
        "github"@ != "gitlab"@,
{
    reveal_strlit("history");
    reveal_strlit("browser-history");
    reveal_strlit("bookmark");
    reveal_strlit("public");
    reveal_strlit("private");
    reveal_strlit("github");
    reveal_strlit("gitlab");
    assert("history"@[0] != "private"@[0]);
    assert("public"@[0] != "github"@[0]);
    assert("public"@[0] != "gitlab"@[0]);
    assert("github"@[3] != "gitlab"@[3]);
}

/// The history tab shows what was visited and what was bookmarked, the tab of
/// Docker Hub public and private images, the other two tabs what is named after
/// them, and the configuration no entries.
pub proof fn law_tabs_show_their_sources(source: Seq<char>)
    ensures
        Tab::History.shows(source) <==> source == "history"@ || source == "browser-history"@
            || source == "bookmark"@,
        Tab::GitHub.shows(source) <==> source == "github"@,
        Tab::GitLab.shows(source) <==> source == "gitlab"@,
        Tab::DockerHub.shows(source) <==> source == "public"@ || source == "private"@,
        !Tab::Config.shows(source),
{
}

/// Every bookmark that is read from a file, of whatever browser, is shown by
/// the history tab, and by no other.
pub proof fn law_bookmarks_are_on_the_history_tab(text: Seq<char>, bytes: Seq<u8>, i: int, tab: Tab)
    ensures
        chromium_file(text) matches Ok(entries) && 0 <= i < entries.len() ==> (tab.shows(
            chromium_file(text)->Ok_0[i].source,
        ) <==> tab == Tab::History),
        safari_file(bytes) matches Ok(entries) && 0 <= i < entries.len() ==> (tab.shows(
            safari_file(bytes)->Ok_0[i].source,
        ) <==> tab == Tab::History),
{
    lemma_source_names();
    if chromium_file(text) is Ok && 0 <= i < chromium_file(text)->Ok_0.len() {
        law_chromium_entries_are_bookmarks(text, i);
    }
    if safari_file(bytes) is Ok && 0 <= i < safari_file(bytes)->Ok_0.len() {
        law_safari_entries_are_bookmarks(bytes, i);
    }
}

/// The source of an entry that an object in an answer describes.
pub proof fn law_item_source(service: Service, item: JsonView)
    requires
        service.item_entry(item) is Some,
    ensures
        service == Service::GitHub ==> service.item_entry(item)->0.source == "github"@,
        service == Service::GitLab ==> service.item_entry(item)->0.source == "gitlab"@,
        service == Service::DockerHub && item.bool_at("is_private"@) == Some(true)
            ==> service.item_entry(item)->0.source == "private"@,
        service == Service::DockerHub && item.bool_at("is_private"@) != Some(true)
            ==> service.item_entry(item)->0.source == "public"@,
{
}

proof fn lemma_entry_has_item(service: Service, answer: JsonView, i: int) -> (item: JsonView)
    requires
        0 <= i < service.entries(answer).len(),
    ensures
        service.item_entry(item) == Some(service.entries(answer)[i]),
{
    let items = service.list(answer)->0;
    let f = |item: JsonView| service.item_entry(item);
    let e = service.entries(answer)[i];
    assert(items.filter_map(f).contains(e));
    items.lemma_filter_map_contains(f, e);
    let item = choose|item: JsonView| items.contains(item) && #[trigger] f(item) == Some(e);
    assert(service.item_entry(item) == Some(e));
    item
}

/// Every entry that is read from an answer of a service is shown by the tab of
/// that service, and by no other.
pub proof fn law_answers_are_on_their_tab(service: Service, text: Seq<char>, i: int, tab: Tab)
    requires
        service.parsed(text) matches Ok(entries) && 0 <= i < entries.len(),
    ensures
        tab.shows(service.parsed(text)->Ok_0[i].source) <==> tab == (match service {
            Service::GitHub => Tab::GitHub,
            Service::GitLab => Tab::GitLab,
            Service::DockerHub => Tab::DockerHub,
        }),
{
    let item = lemma_entry_has_item(service, json_text(text)->Ok_0, i);
    law_item_source(service, item);
    lemma_source_names();
}

/// How many entries a tab shows grows with each entry that it shows, and with
/// no other.
pub proof fn law_counts_grow(entries: Seq<EntryView>, entry: EntryView, tab: Tab)
    ensures
        shown_count(seq![], tab) == 0,
        shown_count(entries.push(entry), tab) == shown_count(entries, tab) + (if tab.shows(
            entry.source,
        ) {
            1int
        } else {
            0int
        }),
{
    let p = |e: EntryView| tab.shows(e.source);
    reveal(Seq::filter);
    assert(Seq::<EntryView>::empty().filter(p).len() == 0);
    assert(entries.push(entry).drop_last() =~= entries);
    assert(entries.push(entry).last() == entry);
}

// ---------------------------------------------------------------------------
// What a refresh replaces
// ---------------------------------------------------------------------------

/// The sources that a refresh of a service replaces are those that its entries
/// can have: `github`, `gitlab`, or `public` and `private`.
pub proof fn law_refresh_replaces_its_sources(service: Service, rows: Seq<EntryView>, s: Seq<char>)
    requires
        rows.len() > 0,
    ensures
        concluded(service, rows) matches JobStepView::Replace { sources, entries, .. } && entries
            == rows && (sources.contains(s) <==> (match service {
            Service::GitHub => s == "github"@,
            Service::GitLab => s == "gitlab"@,
            Service::DockerHub => s == "public"@ || s == "private"@,
        })),
{
    lemma_service_sources(service, s);
}

proof fn lemma_service_sources(service: Service, s: Seq<char>)
    ensures
        service.sources().contains(s) <==> (match service {
            Service::GitHub => s == "github"@,
            Service::GitLab => s == "gitlab"@,
            Service::DockerHub => s == "public"@ || s == "private"@,
        }),
{
    let all = service.sources();
    match service {
        Service::GitHub => {
            assert(all[0] == "github"@);
        },
        Service::GitLab => {
            assert(all[0] == "gitlab"@);
        },
        Service::DockerHub => {
            assert(all[0] == "public"@ && all[1] == "private"@);
        },
    }
}

/// What a service answers can only take the place of what it answered before:
/// every entry of an answer has a source that a refresh of the same service
/// replaces, and no other service replaces that source.
pub proof fn law_answers_replace_their_own(
    service: Service,
    other: Service,
    text: Seq<char>,
    i: int,
    visited: Seq<EntryView>,
)
    requires
        service.parsed(text) matches Ok(entries) && 0 <= i < entries.len(),
        visited.len() > 0,
    ensures
        other.sources().contains(service.parsed(text)->Ok_0[i].source) <==> other == service,
        !history_step(Ok(visited))->sources.contains(service.parsed(text)->Ok_0[i].source),
{
    let item = lemma_entry_has_item(service, json_text(text)->Ok_0, i);
    law_item_source(service, item);
    lemma_source_names();
    let source = service.parsed(text)->Ok_0[i].source;
    lemma_service_sources(other, source);
    law_history_refresh_replaces_its_sources(visited, source);
}

/// A refresh of the browsers' entries replaces what was visited and what was
/// bookmarked.
pub proof fn law_history_refresh_replaces_its_sources(rows: Seq<EntryView>, s: Seq<char>)
    requires
        rows.len() > 0,
    ensures
        history_step(Ok(rows)) matches JobStepView::Replace { sources, entries, .. } && entries
            == rows && (sources.contains(s) <==> s == "history"@ || s == "browser-history"@ || s
            == "bookmark"@),
{
    let all = history_step(Ok(rows))->sources;
    assert(all.len() == 3);
    assert(all[0] == "history"@ && all[1] == "browser-history"@ && all[2] == "bookmark"@);
}

/// The sources that refreshes replace are told apart: those of two services
/// have nothing in common, nor have those of a service and of the browsers.
pub proof fn law_refreshes_do_not_overlap(
    a: Service,
    b: Service,
    visited: Seq<EntryView>,
    s: Seq<char>,
)
    requires
        visited.len() > 0,
    ensures
        a.sources().contains(s) && b.sources().contains(s) ==> a == b,
        !(a.sources().contains(s) && history_step(Ok(visited))->sources.contains(s)),
{
    lemma_source_names();
    lemma_service_sources(a, s);
    lemma_service_sources(b, s);
    law_history_refresh_replaces_its_sources(visited, s);
}

/// A refresh replaces exactly what the tab shows that asks for it.
pub proof fn law_a_tab_refreshes_what_it_shows(
    tab: Tab,
    rows: Seq<EntryView>,
    s: Seq<char>,
)
    requires
        rows.len() > 0,
    ensures
        match tab.refreshes() {
            Some(RefreshRequest::History) => tab.shows(s) <==> history_step(Ok(rows))->sources.contains(
                s,
            ),
            Some(RefreshRequest::GitHub) => tab.shows(s) <==> concluded(
                Service::GitHub,
                rows,
            )->sources.contains(s),
            Some(RefreshRequest::GitLab) => tab.shows(s) <==> concluded(
                Service::GitLab,
                rows,
            )->sources.contains(s),
            Some(RefreshRequest::DockerHub) => tab.shows(s) <==> concluded(
                Service::DockerHub,
                rows,
            )->sources.contains(s),
            None => !tab.shows(s),
        },
        tab == Tab::History ==> tab.refreshes() == Some(RefreshRequest::History),
        tab == Tab::GitHub ==> tab.refreshes() == Some(RefreshRequest::GitHub),
        tab == Tab::GitLab ==> tab.refreshes() == Some(RefreshRequest::GitLab),
        tab == Tab::DockerHub ==> tab.refreshes() == Some(RefreshRequest::DockerHub),
        tab == Tab::Config ==> tab.refreshes() is None,
{
    lemma_source_names();
    lemma_service_sources(Service::GitHub, s);
    lemma_service_sources(Service::GitLab, s);
    lemma_service_sources(Service::DockerHub, s);
    law_history_refresh_replaces_its_sources(rows, s);
}

proof fn lemma_filter_of_deduplicated(entries: Seq<EntryView>, tab: Tab)
    ensures
        deduplicated(entries).filter(|e: EntryView| tab.shows(e.source)) == deduplicated(
            entries.filter(|e: EntryView| tab.shows(e.source)),
        ),
        forall|i: int|
            0 <= i < entries.len() && tab.shows((#[trigger] entries[i]).source) ==> (has_key(
                deduplicated(entries),
                entries[i].key(),
            ) <==> has_key(
                deduplicated(entries.filter(|e: EntryView| tab.shows(e.source))),
                entries[i].key(),
            )),
    decreases entries.len(),
{
    let p = |e: EntryView| tab.shows(e.source);
    reveal(Seq::filter);
    if entries.len() > 0 {
        let front = entries.drop_last();
        let last = entries.last();
        lemma_filter_of_deduplicated(front, tab);
        let kept = deduplicated(front);
        let shown = deduplicated(front.filter(p));
        assert(kept.filter(p) == shown);
        if p(last) {
            assert(entries.filter(p) =~= front.filter(p).push(last));
            assert(entries.filter(p).drop_last() =~= front.filter(p));
            lemma_key_in_filter(kept, tab, last);
        } else {
            assert(entries.filter(p) =~= front.filter(p));
        }
        if last.url.len() > 0 && !has_key(kept, last.key()) {
            assert(deduplicated(entries) == kept.push(last));
            assert(kept.push(last).drop_last() =~= kept);
        }
    }
    assert forall|i: int|
        0 <= i < entries.len() && tab.shows((#[trigger] entries[i]).source) implies (has_key(
        deduplicated(entries),
        entries[i].key(),
    ) <==> has_key(deduplicated(entries.filter(p)), entries[i].key())) by {
        lemma_key_in_filter(deduplicated(entries), tab, entries[i]);
    }
}

proof fn lemma_key_in_filter(entries: Seq<EntryView>, tab: Tab, e: EntryView)
    requires
        tab.shows(e.source),
    ensures
        has_key(entries, e.key()) <==> has_key(
            entries.filter(|e: EntryView| tab.shows(e.source)),
            e.key(),
        ),
{
    let p = |e: EntryView| tab.shows(e.source);
    let shown = entries.filter(p);
    if has_key(entries, e.key()) {
        let i = choose|i: int| 0 <= i < entries.len() && (#[trigger] entries[i]).key() == e.key();
        entries.lemma_filter_contains(p, i);
        let k = choose|k: int| 0 <= k < shown.len() && shown[k] == entries[i];
        assert(shown[k].key() == e.key());
    }
    if has_key(shown, e.key()) {
        let k = choose|k: int| 0 <= k < shown.len() && (#[trigger] shown[k]).key() == e.key();
        assert(shown.contains(shown[k]));
        entries.lemma_filter_contains_rev(p, shown[k]);
        let i = choose|i: int| 0 <= i < entries.len() && entries[i] == shown[k];
        assert(entries[i].key() == e.key());
    }
}

proof fn lemma_filter_all(entries: Seq<EntryView>, p: spec_fn(EntryView) -> bool)
    requires
        forall|i: int| 0 <= i < entries.len() ==> p(#[trigger] entries[i]),
    ensures
        entries.filter(p) == entries,
    decreases entries.len(),
{
    reveal(Seq::filter);
    if entries.len() > 0 {
        lemma_filter_all(entries.drop_last(), p);
        assert(entries.drop_last().push(entries.last()) =~= entries);
    }
}

proof fn lemma_filter_none(entries: Seq<EntryView>, p: spec_fn(EntryView) -> bool)
    requires
        forall|i: int| 0 <= i < entries.len() ==> !p(#[trigger] entries[i]),
    ensures
        entries.filter(p) == Seq::<EntryView>::empty(),
    decreases entries.len(),
{
    reveal(Seq::filter);
    if entries.len() > 0 {
        lemma_filter_none(entries.drop_last(), p);
    }
}

proof fn lemma_filter_filter(
    entries: Seq<EntryView>,
    p: spec_fn(EntryView) -> bool,
    q: spec_fn(EntryView) -> bool,
)
    requires
        forall|e: EntryView| #[trigger] q(e) ==> p(e),
    ensures
        entries.filter(p).filter(q) == entries.filter(q),
    decreases entries.len(),
{
    reveal(Seq::filter);
    if entries.len() > 0 {
        let front = entries.drop_last();
        lemma_filter_filter(front, p, q);
        if p(entries.last()) {
            let shown = front.filter(p).push(entries.last());
            assert(shown.drop_last() =~= front.filter(p));
            assert(shown.last() == entries.last());
        }
    }
}

/// When the entries that one tab shows are replaced by others of that tab, the
/// tab has the new ones, each once, and every other tab has what it had before,
/// in the same order.
pub proof fn law_replacing_one_tab(
    entries: Seq<EntryView>,
    sources: Seq<Seq<char>>,
    rows: Seq<EntryView>,
    tab: Tab,
    other: Tab,
)
    requires
        forall|s: Seq<char>| #[trigger] sources.contains(s) <==> tab.shows(s),
        forall|i: int| 0 <= i < rows.len() ==> tab.shows((#[trigger] rows[i]).source),
        other != tab,
    ensures
        replaced(entries, sources, rows).filter(|e: EntryView| tab.shows(e.source))
            == deduplicated(rows),
        replaced(entries, sources, rows).filter(|e: EntryView| other.shows(e.source))
            == deduplicated(entries.filter(|e: EntryView| other.shows(e.source))),
{
    let own = |e: EntryView| tab.shows(e.source);
    let theirs = |e: EntryView| other.shows(e.source);
    let kept = |e: EntryView| !sources.contains(e.source);
    let old = entries.filter(kept);
    lemma_filter_of_deduplicated(old + rows, tab);
    lemma_filter_of_deduplicated(old + rows, other);
    Seq::filter_distributes_over_add(old, rows, own);
    Seq::filter_distributes_over_add(old, rows, theirs);
    assert forall|i: int| 0 <= i < old.len() implies !own(#[trigger] old[i]) by {
        entries.lemma_filter_pred(kept, i);
    }
    lemma_filter_none(old, own);
    lemma_filter_all(rows, own);
    assert(old.filter(own) + rows.filter(own) =~= rows);
    assert forall|e: EntryView| #[trigger] theirs(e) implies kept(e) by {
        if tab.shows(e.source) {
            law_tabs_are_disjoint(e.source, tab, other);
        }
    }
    lemma_filter_filter(entries, kept, theirs);
    assert forall|i: int| 0 <= i < rows.len() implies !theirs(#[trigger] rows[i]) by {
        if theirs(rows[i]) {
            law_tabs_are_disjoint(rows[i].source, tab, other);
        }
    }
    lemma_filter_none(rows, theirs);
    assert(old.filter(theirs) + rows.filter(theirs) =~= entries.filter(theirs));
}

/// A refresh of a service with what it answered changes its tab alone: the tab
/// then has what was answered, and every other tab what it had.
pub proof fn law_refresh_changes_its_tab(
    entries: Seq<EntryView>,
    service: Service,
    rows: Seq<EntryView>,
    tab: Tab,
    other: Tab,
)
    requires
        rows.len() > 0,
        tab == (match service {
            Service::GitHub => Tab::GitHub,
            Service::GitLab => Tab::GitLab,
            Service::DockerHub => Tab::DockerHub,
        }),
        other != tab,
        forall|i: int| 0 <= i < rows.len() ==> tab.shows((#[trigger] rows[i]).source),
    ensures
        concluded(service, rows) matches JobStepView::Replace { sources, entries: new, .. } && {
            let after = replaced(entries, sources, new);
            &&& after.filter(|e: EntryView| tab.shows(e.source)) == deduplicated(rows)
            &&& after.filter(|e: EntryView| other.shows(e.source)) == deduplicated(
                entries.filter(|e: EntryView| other.shows(e.source)),
            )
        },
{
    let sources = service.sources();
    assert forall|s: Seq<char>| #[trigger] sources.contains(s) <==> tab.shows(s) by {
        lemma_service_sources(service, s);
        lemma_source_names();
    }
    law_replacing_one_tab(entries, sources, rows, tab, other);
}

/// A refresh of the browsers' entries changes the history tab alone.
pub proof fn law_history_refresh_changes_its_tab(
    entries: Seq<EntryView>,
    rows: Seq<EntryView>,
    other: Tab,
)
    requires
        rows.len() > 0,
        other != Tab::History,
        forall|i: int| 0 <= i < rows.len() ==> Tab::History.shows((#[trigger] rows[i]).source),
    ensures
        history_step(Ok(rows)) matches JobStepView::Replace { sources, entries: new, .. } && {
            let after = replaced(entries, sources, new);
            &&& after.filter(|e: EntryView| Tab::History.shows(e.source)) == deduplicated(rows)
            &&& after.filter(|e: EntryView| other.shows(e.source)) == deduplicated(
                entries.filter(|e: EntryView| other.shows(e.source)),
            )
        },
{
    let sources = history_step(Ok(rows))->sources;
    assert forall|s: Seq<char>| #[trigger] sources.contains(s) <==> Tab::History.shows(s) by {
        law_history_refresh_replaces_its_sources(rows, s);
    }
    law_replacing_one_tab(entries, sources, rows, Tab::History, other);
}

// ---------------------------------------------------------------------------
// Loading
// ---------------------------------------------------------------------------

/// Entries are the same where title, address and source are. Of the same ones
/// the first is kept, and no other; what has no address is dropped.
pub proof fn law_deduplicated_by_title_address_and_source(entries: Seq<EntryView>)
    ensures
        forall|i: int, j: int|
            0 <= i < j < deduplicated(entries).len() ==> {
                let a = #[trigger] deduplicated(entries)[i];
                let b = #[trigger] deduplicated(entries)[j];
                a.title != b.title || a.url != b.url || a.source != b.source
            },
        forall|i: int|
            0 <= i < deduplicated(entries).len() ==> (#[trigger] deduplicated(entries)[i]).url.len()
                > 0 && entries.contains(deduplicated(entries)[i]),
        forall|i: int|
            0 <= i < entries.len() && (#[trigger] entries[i]).url.len() > 0 && (forall|j: int|
                0 <= j < i ==> (#[trigger] entries[j]).title != entries[i].title || entries[j].url
                    != entries[i].url || entries[j].source != entries[i].source)
                ==> deduplicated(entries).contains(entries[i]),
{
    law_deduplicated(entries);
    law_deduplicate_keeps_the_first(entries);
    let n = entries.len() as int;
    assert forall|i: int|
        0 <= i < entries.len() && (#[trigger] entries[i]).url.len() > 0 && (forall|j: int|
            0 <= j < i ==> (#[trigger] entries[j]).title != entries[i].title || entries[j].url
                != entries[i].url || entries[j].source
                != entries[i].source) implies deduplicated(entries).contains(entries[i]) by {
        let places = Seq::new(n as nat, |i: int| i);
        let p = |i: int| is_first(entries, i);
        assert(places[i] == i && p(i));
        places.lemma_filter_contains(p, i);
        let firsts = first_ones(entries, n);
        let k = choose|k: int| 0 <= k < firsts.len() && firsts[k] == i;
        assert(firsts.map_values(|i: int| entries[i])[k] == entries[i]);
    }
}

/// Whether entries hold one with the title, the address and the source of
/// another.
pub open spec fn has_same(entries: Seq<EntryView>, e: EntryView) -> bool {
    exists|k: int|
        0 <= k < entries.len() && (#[trigger] entries[k]).title == e.title && entries[k].url
            == e.url && entries[k].source == e.source
}

proof fn lemma_delivered_is_loaded(list: Seq<DeliveryView>, k: int, i: int)
    requires
        0 <= k < list.len(),
        0 <= i < delivered(list[k]).len(),
        delivered(list[k])[i].url.len() > 0,
    ensures
        has_same(deduplicated(all_delivered(list)), delivered(list[k])[i]),
{
    let all = all_delivered(list);
    let e = delivered(list[k])[i];
    law_failures_leave_the_others(list, k);
    assert(all.contains(e));
    let at = choose|at: int| 0 <= at < all.len() && all[at] == e;
    law_deduplicated(all);
    let loaded = deduplicated(all);
    let m = choose|m: int| 0 <= m < loaded.len() && (#[trigger] loaded[m]).key() == all[at].key();
    assert(loaded[m].title == e.title);
}

proof fn lemma_loaded_was_delivered(list: Seq<DeliveryView>, e: EntryView) -> (k: int)
    requires
        all_delivered(list).contains(e),
    ensures
        0 <= k < list.len(),
        delivered(list[k]).contains(e),
    decreases list.len(),
{
    if list.len() == 0 {
        assert(false);
        0
    } else {
        let front = all_delivered(list.drop_last());
        let own = delivered(list.last());
        let i = choose|i: int| 0 <= i < (front + own).len() && (front + own)[i] == e;
        if i < front.len() {
            assert(front[i] == e);
            let k = lemma_loaded_was_delivered(list.drop_last(), e);
            k
        } else {
            assert(own[i - front.len()] == e);
            list.len() - 1
        }
    }
}

/// Of every browser that could be read, everything with an address is loaded,
/// whatever became of the others; and nothing is loaded that no browser had.
pub proof fn law_every_browser_is_loaded(
    chromium: Result<Vec<Entry>, String>,
    firefox: Result<Vec<Entry>, String>,
    safari: Result<Vec<Entry>, String>,
    i: int,
)
    ensures
        ({
            let loaded = deduplicated(all_delivered(browser_deliveries(chromium, firefox, safari)));
            &&& chromium matches Ok(rows) ==> (0 <= i < rows@.len() && rows@[i]@.url.len() > 0
                ==> has_same(loaded, rows@[i]@))
            &&& firefox matches Ok(rows) ==> (0 <= i < rows@.len() && rows@[i]@.url.len() > 0
                ==> has_same(loaded, rows@[i]@))
            &&& safari matches Ok(rows) ==> (0 <= i < rows@.len() && rows@[i]@.url.len() > 0
                ==> has_same(loaded, rows@[i]@))
            &&& 0 <= i < loaded.len() ==> {
                ||| chromium matches Ok(rows) && views(rows@).contains(loaded[i])
                ||| firefox matches Ok(rows) && views(rows@).contains(loaded[i])
                ||| safari matches Ok(rows) && views(rows@).contains(loaded[i])
            }
        }),
{
    let list = browser_deliveries(chromium, firefox, safari);
    assert(list.len() == 3);
    if chromium is Ok && 0 <= i < chromium->Ok_0@.len() && chromium->Ok_0@[i]@.url.len() > 0 {
        assert(delivered(list[0])[i] == chromium->Ok_0@[i]@);
        lemma_delivered_is_loaded(list, 0, i);
    }
    if firefox is Ok && 0 <= i < firefox->Ok_0@.len() && firefox->Ok_0@[i]@.url.len() > 0 {
        assert(delivered(list[1])[i] == firefox->Ok_0@[i]@);
        lemma_delivered_is_loaded(list, 1, i);
    }
    if safari is Ok && 0 <= i < safari->Ok_0@.len() && safari->Ok_0@[i]@.url.len() > 0 {
        assert(delivered(list[2])[i] == safari->Ok_0@[i]@);
        lemma_delivered_is_loaded(list, 2, i);
    }
    let loaded = deduplicated(all_delivered(list));
    if 0 <= i < loaded.len() {
        law_deduplicated(all_delivered(list));
        let k = lemma_loaded_was_delivered(list, loaded[i]);
        assert(k == 0 || k == 1 || k == 2);
    }
}

/// Of every source that is switched on, everything with an address is loaded,
/// what is cached as well as what is fetched; of one that is switched off,
/// nothing.
#[verifier::rlimit(30)]
pub proof fn law_enabled_sources_are_loaded(
    config: &Config,
    browser: Result<Vec<Entry>, String>,
    github: RemoteRows,
    gitlab: RemoteRows,
    i: int,
)
    ensures
        ({
            let loaded = deduplicated(
                all_delivered(enabled_deliveries(config, browser, github, gitlab)),
            );
            &&& config.include_browser && browser is Ok ==> (0 <= i < browser->Ok_0@.len()
                && browser->Ok_0@[i]@.url.len() > 0 ==> has_same(loaded, browser->Ok_0@[i]@))
            &&& config.include_github ==> (0 <= i < github.cached@.len()
                && github.cached@[i]@.url.len() > 0 ==> has_same(loaded, github.cached@[i]@))
            &&& config.include_github && github.fetched is Ok ==> (0 <= i
                < github.fetched->Ok_0@.len() && github.fetched->Ok_0@[i]@.url.len() > 0
                ==> has_same(loaded, github.fetched->Ok_0@[i]@))
            &&& config.include_gitlab ==> (0 <= i < gitlab.cached@.len()
                && gitlab.cached@[i]@.url.len() > 0 ==> has_same(loaded, gitlab.cached@[i]@))
            &&& config.include_gitlab && gitlab.fetched is Ok ==> (0 <= i
                < gitlab.fetched->Ok_0@.len() && gitlab.fetched->Ok_0@[i]@.url.len() > 0
                ==> has_same(loaded, gitlab.fetched->Ok_0@[i]@))
            &&& 0 <= i < loaded.len() ==> {
                ||| config.include_browser && browser is Ok && views(browser->Ok_0@).contains(
                    loaded[i],
                )
                ||| config.include_github && views(github.cached@).contains(loaded[i])
                ||| config.include_github && github.fetched is Ok && views(
                    github.fetched->Ok_0@,
                ).contains(loaded[i])
                ||| config.include_gitlab && views(gitlab.cached@).contains(loaded[i])
                ||| config.include_gitlab && gitlab.fetched is Ok && views(
                    gitlab.fetched->Ok_0@,
                ).contains(loaded[i])
            }
        }),
{
    let list = enabled_deliveries(config, browser, github, gitlab);
    let a: int = if config.include_browser {
        1
    } else {
        0
    };
    let b: int = if config.include_github {
        a + 2
    } else {
        a
    };
    if config.include_browser && browser is Ok && 0 <= i < browser->Ok_0@.len()
        && browser->Ok_0@[i]@.url.len() > 0 {
        assert(delivered(list[0])[i] == browser->Ok_0@[i]@);
        lemma_delivered_is_loaded(list, 0, i);
    }
    if config.include_github && 0 <= i < github.cached@.len() && github.cached@[i]@.url.len() > 0 {
        assert(delivered(list[a])[i] == github.cached@[i]@);
        lemma_delivered_is_loaded(list, a, i);
    }
    if config.include_github && github.fetched is Ok && 0 <= i < github.fetched->Ok_0@.len()
        && github.fetched->Ok_0@[i]@.url.len() > 0 {
        assert(delivered(list[a + 1])[i] == github.fetched->Ok_0@[i]@);
        lemma_delivered_is_loaded(list, a + 1, i);
    }
    if config.include_gitlab && 0 <= i < gitlab.cached@.len() && gitlab.cached@[i]@.url.len() > 0 {
        assert(delivered(list[b])[i] == gitlab.cached@[i]@);
        lemma_delivered_is_loaded(list, b, i);
    }
    if config.include_gitlab && gitlab.fetched is Ok && 0 <= i < gitlab.fetched->Ok_0@.len()
        && gitlab.fetched->Ok_0@[i]@.url.len() > 0 {
        assert(delivered(list[b + 1])[i] == gitlab.fetched->Ok_0@[i]@);
        lemma_delivered_is_loaded(list, b + 1, i);
    }
    let loaded = deduplicated(all_delivered(list));
    if 0 <= i < loaded.len() {
        law_deduplicated(all_delivered(list));
        let k = lemma_loaded_was_delivered(list, loaded[i]);
        assert(0 <= k < 5);
    }
}

/// A text on one line is as long as it was, and differs from it only where a
/// tab or the end of a line became a space.
pub proof fn law_cleaned(s: Seq<char>)
    ensures
        cleaned(s).len() == s.len(),
        forall|i: int|
            0 <= i < s.len() ==> #[trigger] cleaned(s)[i] == (if s[i] == '\t' || s[i] == '\n' || s[i]
                == '\r' {
                ' '
            } else {
                s[i]
            }),
{
}

/// What is cut from a title is white space and invisible marks at its two ends;
/// nothing inside it, and nothing that is seen.
pub proof fn law_plain_title(s: Seq<char>)
    ensures
        exists|from: int, to: int|
            0 <= from <= to <= s.len() && plain_title(s) == #[trigger] s.subrange(from, to) && (
            forall|i: int|
                0 <= i < from || to <= i < s.len() ==> is_space(#[trigger] s[i]) || is_format_mark(
                    s[i],
                )),
        plain_title(s).len() > 0 ==> !is_space(plain_title(s)[0]) && !is_format_mark(
            plain_title(s)[0],
        ) && !is_space(plain_title(s).last()) && !is_format_mark(plain_title(s).last()),
{
    let class = Class::TitlePadding;
    let tail = trim_start(s, class);
    lemma_trim_start(s, class);
    lemma_trim_end(tail, class);
    lemma_trim_ends(s, class);
    let from = s.len() - tail.len();
    let to = from + plain_title(s).len();
    assert(plain_title(s) =~= s.subrange(from, to));
    assert forall|i: int| 0 <= i < from || to <= i < s.len() implies is_space(#[trigger] s[i])
        || is_format_mark(s[i]) by {
        if i >= to {
            assert(tail[i - from] == s[i]);
        }
    }
}

/// The text that is searched holds the title, the address, the source and the
/// detail, with a space between them.
pub proof fn law_haystack_holds_all(e: EntryView)
    ensures
        e.haystack() == e.title.push(' ') + e.url.push(' ') + e.source.push(' ') + e.detail,
{
    reveal_strlit(" ");
    assert(" "@ =~= seq![' ']);
    assert(e.haystack() =~= e.title.push(' ') + e.url.push(' ') + e.source.push(' ') + e.detail);
}

/// Repositories come before bookmarks that match as well, and bookmarks before
/// anything else.
pub proof fn law_boosts(source: Seq<char>)
    ensures
        source == "github"@ || source == "gitlab"@ ==> boost(source) == 20,
        source == "bookmark"@ ==> boost(source) == 10,
        source != "github"@ && source != "gitlab"@ && source != "bookmark"@ ==> boost(source) == 0,
{
    lemma_source_names();
}

// ---------------------------------------------------------------------------
// Rows of a query
// ---------------------------------------------------------------------------

/// Mapping two lists one behind the other maps each of them.
pub proof fn lemma_filter_map_add<A, B>(a: Seq<A>, b: Seq<A>, f: spec_fn(A) -> Option<B>)
    ensures
        (a + b).filter_map(f) == a.filter_map(f) + b.filter_map(f),
    decreases b.len(),
{
    if b.len() == 0 {
        assert(a + b =~= a);
        assert(b.filter_map(f) =~= seq![]);
    } else {
        lemma_filter_map_add(a, b.drop_last(), f);
        assert((a + b).drop_last() =~= a + b.drop_last());
        assert((a + b).filter_map(f) =~= a.filter_map(f) + b.filter_map(f));
    }
}

/// Mapping a list of one.
pub proof fn lemma_filter_map_one<A, B>(a: A, f: spec_fn(A) -> Option<B>)
    ensures
        seq![a].filter_map(f) == (match f(a) {
            Some(b) => seq![b],
            None => seq![],
        }),
{
    assert(seq![a].drop_last() =~= seq![]);
    assert(seq![a].last() == a);
    assert(Seq::<A>::empty().filter_map(f) =~= seq![]);
    reveal_with_fuel(Seq::filter_map, 2);
}

/// The rows of a text are read one after the other: the first line is a row,
/// and behind it come the rows of the other lines.
pub proof fn law_rows_stand_on_lines(
    first: Seq<char>,
    rest: Seq<char>,
    source: Seq<char>,
    detail: Seq<char>,
)
    requires
        forall|i: int| 0 <= i < first.len() ==> #[trigger] first[i] != '\n',
        first.len() > 0 ==> first.last() != '\r',
    ensures
        tsv_entries(first + seq!['\n'] + rest, source, detail) == (match tsv_entry(
            first,
            source,
            detail,
        ) {
            Some(e) => seq![e],
            None => seq![],
        }) + tsv_entries(rest, source, detail),
        tsv_entries(seq![], source, detail).len() == 0,
{
    let f = |line: Seq<char>| tsv_entry(line, source, detail);
    lemma_first_line(first, rest);
    lemma_filter_map_add(seq![first], lines(rest), f);
    lemma_filter_map_one(first, f);
}

/// A row holds a title, an address and a detail between tabs; the detail may be
/// missing, and another stands in for it. White space around them is dropped. A
/// row without an address is none.
pub proof fn law_row_fields(
    title: Seq<char>,
    url: Seq<char>,
    last: Seq<char>,
    source: Seq<char>,
    detail: Seq<char>,
)
    requires
        forall|i: int| 0 <= i < title.len() ==> #[trigger] title[i] != '\t',
        forall|i: int| 0 <= i < url.len() ==> #[trigger] url[i] != '\t',
    ensures
        ({
            let long = tsv_entry(title + seq!['\t'] + url + seq!['\t'] + last, source, detail);
            let short = tsv_entry(title + seq!['\t'] + url, source, detail);
            if trim(url, Class::Space).len() == 0 {
                long is None && short is None
            } else {
                &&& long is Some && short is Some
                &&& long->0.url == trim(url, Class::Space) && short->0.url == long->0.url
                &&& long->0.title == plain_title(trim(title, Class::Space)) && short->0.title
                    == long->0.title
                &&& long->0.source == source && short->0.source == source
                &&& long->0.detail == trim(last, Class::Space)
                &&& short->0.detail == trim(detail, Class::Space)
            }
        }),
        tsv_entry(title, source, detail) is None,
{
    let tab = Class::Just('\t');
    law_title_normal_form(trim(title, Class::Space));
    let long = title + seq!['\t'] + url + seq!['\t'] + last;
    assert(long =~= title + seq!['\t'] + (url + seq!['\t'] + last));
    lemma_next_field(title, url + seq!['\t'] + last, 3);
    lemma_next_field(url, last, 2);
    assert(splitn(long, 3, tab) =~= seq![title, url, last]);
    let short = title + seq!['\t'] + url;
    lemma_next_field(title, url, 3);
    assert forall|i: int| 0 <= i < url.len() implies !tab.has(#[trigger] url[i]) by {}
    lemma_first_of_none(url, tab);
    assert(splitn(short, 3, tab) =~= seq![title, url]);
    assert forall|i: int| 0 <= i < title.len() implies !tab.has(#[trigger] title[i]) by {}
    lemma_first_of_none(title, tab);
    assert(splitn(title, 3, tab) =~= seq![title]);
}

// ---------------------------------------------------------------------------
// When a refresh starts
// ---------------------------------------------------------------------------

/// A refresh that a tab asks for is started where the source of that tab is
/// switched on.
pub proof fn law_switches_admit_refreshes(request: RefreshRequest, switches: RuntimeConfig)
    ensures
        request == RefreshRequest::History ==> request.switched_on(switches) == switches.browser,
        request == RefreshRequest::GitHub ==> request.switched_on(switches) == switches.github,
        request == RefreshRequest::GitLab ==> request.switched_on(switches) == switches.gitlab,
        request == RefreshRequest::DockerHub ==> request.switched_on(switches)
            == switches.dockerhub,
{
}

/// At the start exactly those sources are refreshed that are due, each once.
pub proof fn law_due_sources_are_refreshed(github: bool, gitlab: bool, dockerhub: bool)
    ensures
        due_requests(github, gitlab, dockerhub).contains(RefreshRequest::GitHub) <==> github,
        due_requests(github, gitlab, dockerhub).contains(RefreshRequest::GitLab) <==> gitlab,
        due_requests(github, gitlab, dockerhub).contains(RefreshRequest::DockerHub) <==> dockerhub,
        !due_requests(github, gitlab, dockerhub).contains(RefreshRequest::History),
        due_requests(github, gitlab, dockerhub).no_duplicates(),
{
    let list = due_requests(github, gitlab, dockerhub);
    let a: int = if github {
        1
    } else {
        0
    };
    let b: int = if gitlab {
        a + 1
    } else {
        a
    };
    if github {
        assert(list[0] == RefreshRequest::GitHub);
    }
    if gitlab {
        assert(list[a] == RefreshRequest::GitLab);
    }
    if dockerhub {
        assert(list[b] == RefreshRequest::DockerHub);
    }
}

// ---------------------------------------------------------------------------
// Reports
// ---------------------------------------------------------------------------

/// Every source that failed is reported with its label and the error, in order,
/// and no other.
pub proof fn law_failures_are_reported(list: Seq<DeliveryView>, d: DeliveryView)
    ensures
        all_failures(seq![]).len() == 0,
        all_failures(list.push(d)) == all_failures(list) + (match d.rows {
            Ok(_) => seq![],
            Err(err) => seq![d.label + ": "@ + err],
        }),
        all_delivered(list.push(d)) == all_delivered(list) + (match d.rows {
            Ok(rows) => rows,
            Err(_) => seq![],
        }),
{
    let f = |d: DeliveryView| failure(d);
    assert(list.push(d) =~= list + seq![d]);
    lemma_filter_map_add(list, seq![d], f);
    lemma_filter_map_one(d, f);
    assert(list.push(d).drop_last() =~= list);
}

/// The words by which denied access is recognised, wherever they stand in an
/// error; the last ones in whatever case.
pub proof fn law_denied_access_is_recognised(a: Seq<char>, b: Seq<char>, words: Seq<char>)
    ensures
        permission_denied(a + "Operation not permitted"@ + b),
        permission_denied(a + "PermissionDenied"@ + b),
        lowercase(words) == "permission denied"@ ==> permission_denied(a + words + b),
{
    let first = "Operation not permitted"@;
    assert((a + first + b).subrange(a.len() as int, (a.len() + first.len()) as int) =~= first);
    assert(occurs_at(a + first + b, first, a.len() as int));
    let second = "PermissionDenied"@;
    assert((a + second + b).subrange(a.len() as int, (a.len() + second.len()) as int) =~= second);
    assert(occurs_at(a + second + b, second, a.len() as int));
    let third = "permission denied"@;
    if lowercase(words) == third {
        let whole = lowercase(a + words + b);
        assert(words.len() == lowercase(words).len());
        assert(whole.subrange(a.len() as int, (a.len() + third.len()) as int) =~= lowercase(words)) by {
            assert forall|i: int| 0 <= i < words.len() implies whole[a.len() + i] == lowercase(
                words,
            )[i] by {
                assert((a + words + b)[a.len() + i] == words[i]);
            }
        }
        assert(occurs_at(whole, third, a.len() as int));
    }
}

/// Of Safari's data every failure is reported, but denied access only once and
/// last, with what to do about it.
pub proof fn law_safari_reports(list: Seq<DeliveryView>)
    ensures
        (exists|i: int|
            0 <= i < list.len() && (#[trigger] list[i]).rows is Err && permission_denied(
                list[i].rows->Err_0,
            )) ==> safari_reports(list).len() > 0 && safari_reports(list).last()
            == "safari data unavailable: macOS denied access. Grant Full Disk Access to your terminal to include Safari bookmarks and history."@,
        (forall|i: int|
            0 <= i < list.len() ==> ((#[trigger] list[i]).rows matches Err(err)
                ==> !permission_denied(err))) ==> safari_reports(list) == all_failures(list),
        forall|i: int|
            0 <= i < list.len() ==> ((#[trigger] list[i]).rows matches Err(err) ==> (
            !permission_denied(err) ==> safari_reports(list).contains(
                list[i].label + ": "@ + err,
            ))),
{
    let f = |d: DeliveryView| other_failure(d);
    let others = list.filter_map(f);
    if exists|i: int|
        0 <= i < list.len() && (#[trigger] list[i]).rows is Err && permission_denied(
            list[i].rows->Err_0,
        ) {
        let i = choose|i: int|
            0 <= i < list.len() && (#[trigger] list[i]).rows is Err && permission_denied(
                list[i].rows->Err_0,
            );
        assert(denied(list[i]));
    }
    if forall|i: int|
        0 <= i < list.len() ==> ((#[trigger] list[i]).rows matches Err(err)
            ==> !permission_denied(err)) {
        assert forall|i: int| 0 <= i < list.len() implies !denied(#[trigger] list[i]) by {}
        lemma_others_are_all(list);
        assert(safari_reports(list) =~= all_failures(list));
    }
    assert forall|i: int| 0 <= i < list.len() implies ((#[trigger] list[i]).rows matches Err(err)
        ==> (!permission_denied(err) ==> safari_reports(list).contains(
        list[i].label + ": "@ + err,
    ))) by {
        if list[i].rows is Err && !permission_denied(list[i].rows->Err_0) {
            let line = f(list[i])->0;
            lemma_filter_map_keeps(list, f, i);
            let k = choose|k: int| 0 <= k < others.len() && others[k] == line;
            assert(safari_reports(list)[k] == line);
        }
    }
}

proof fn lemma_others_are_all(list: Seq<DeliveryView>)
    requires
        forall|i: int| 0 <= i < list.len() ==> !denied(#[trigger] list[i]),
    ensures
        list.filter_map(|d: DeliveryView| other_failure(d)) == all_failures(list),
    decreases list.len(),
{
    if list.len() > 0 {
        assert(!denied(list[list.len() - 1]));
        assert forall|i: int| 0 <= i < list.drop_last().len() implies !denied(
            #[trigger] list.drop_last()[i],
        ) by {
            assert(list.drop_last()[i] == list[i]);
        }
        lemma_others_are_all(list.drop_last());
    }
}

/// A request starts a refresh where its source is switched on and not being
/// refreshed; then it is, until the refresh is over. Otherwise nothing changes,
/// and the user is told which of the two it is. No other source is concerned.
pub proof fn law_requests_start_refreshes(
    state: RefreshState,
    request: RefreshRequest,
    other: RefreshRequest,
    switches: RuntimeConfig,
)
    ensures
        ({
            let (after, told) = request_taken(state, request, switches);
            &&& told is None <==> request.switched_on(switches) && !state.busy(request)
            &&& told is None ==> after.busy(request)
            &&& told is Some ==> after == state
            &&& other != request ==> after.busy(other) == state.busy(other)
            &&& !request.switched_on(switches) ==> told == Some(
                request.title() + " source is disabled."@,
            )
            &&& request.switched_on(switches) && state.busy(request) ==> told == Some(
                request.title() + " is already refreshing."@,
            )
            &&& !after.marked(request, false).busy(request)
        }),
{
    law_one_refresh_at_a_time(state, request, other);
    law_one_refresh_at_a_time(request_taken(state, request, switches).0, request, other);
}

/// At the start a remote source has what was saved of it, and is refreshed at
/// once where that is nothing, too old, or of unknown age. A source that is
/// switched off has nothing and is not refreshed.
pub proof fn law_start_with_what_was_saved(cache: CacheView, age: Option<u64>, interval: u64)
    requires
        forall|i: int| 0 <= i < cache.entries.len() ==> cacheable(#[trigger] cache.entries[i]),
    ensures
        start_rows(true, Some(cache_text(cache)), age, interval) == (
            cache.entries,
            cache.entries.len() == 0 || age is None || age->0 >= interval,
        ),
        start_rows(true, None, age, interval).0.len() == 0 && start_rows(
            true,
            None,
            age,
            interval,
        ).1,
        forall|file: Option<Seq<char>>|
            (#[trigger] start_rows(false, file, age, interval)).0.len() == 0 && !start_rows(
                false,
                file,
                age,
                interval,
            ).1,
{
    law_saved_entries_are_shown(cache, age, interval);
}

/// At the start the entries of all sources are there, one source behind the
/// other.
pub proof fn law_start_with_all_sources<T>(a: Seq<T>, b: Seq<T>, c: Seq<T>, d: Seq<T>, e: T)
    ensures
        start_entries(a, b, c, d).contains(e) <==> a.contains(e) || b.contains(e) || c.contains(e)
            || d.contains(e),
        start_entries(a, b, c, d).len() == a.len() + b.len() + c.len() + d.len(),
        a.is_prefix_of(start_entries(a, b, c, d)),
{
    let all = start_entries(a, b, c, d);
    assert(a =~= all.take(a.len() as int));
    if all.contains(e) {
        let i = choose|i: int| 0 <= i < all.len() && all[i] == e;
        if i < a.len() {
            assert(a[i] == e);
        } else if i < a.len() + b.len() {
            assert(b[i - a.len()] == e);
        } else if i < a.len() + b.len() + c.len() {
            assert(c[i - a.len() - b.len()] == e);
        } else {
            assert(d[i - a.len() - b.len() - c.len()] == e);
        }
    }
    if a.contains(e) {
        let i = choose|i: int| 0 <= i < a.len() && a[i] == e;
        assert(all[i] == e);
    }
    if b.contains(e) {
        let i = choose|i: int| 0 <= i < b.len() && b[i] == e;
        assert(all[a.len() + i] == e);
    }
    if c.contains(e) {
        let i = choose|i: int| 0 <= i < c.len() && c[i] == e;
        assert(all[a.len() + b.len() + i] == e);
    }
    if d.contains(e) {
        let i = choose|i: int| 0 <= i < d.len() && d[i] == e;
        assert(all[a.len() + b.len() + c.len() + i] == e);
    }
}

// ---------------------------------------------------------------------------
// What is found
// ---------------------------------------------------------------------------

/// Whether an entry belongs on a tab, by its source.
pub open spec fn belongs(tab: Tab, e: EntryView) -> bool {
    match tab {
        Tab::History => e.source == "history"@ || e.source == "browser-history"@ || e.source
            == "bookmark"@,
        Tab::GitHub => e.source == "github"@,
        Tab::GitLab => e.source == "gitlab"@,
        Tab::DockerHub => e.source == "public"@ || e.source == "private"@,
        Tab::Config => false,
    }
}

/// On the tab that is open everything that belongs there and matches the query
/// is found, as long as there are fewer than three hundred such entries, and
/// nothing is found that does not belong there or does not match.
pub proof fn law_what_is_found(v: AppView, i: int)
    requires
        v.tab_enabled(v.tab),
        v.tab != Tab::Config,
        0 <= i < v.entries.len() <= usize::MAX,
    ensures
        v.recomputed().tab == v.tab,
        v.recomputed().visible.contains(i as usize) ==> belongs(v.tab, v.entries[i]) && matched(
            v.query,
            v.entries[i].title.push(' ') + v.entries[i].url.push(' ') + v.entries[i].source.push(
                ' ',
            ) + v.entries[i].detail,
        ) is Some,
        v.recomputed().visible.len() < 300 && belongs(v.tab, v.entries[i]) && matched(
            v.query,
            v.entries[i].title.push(' ') + v.entries[i].url.push(' ') + v.entries[i].source.push(
                ' ',
            ) + v.entries[i].detail,
        ) is Some ==> v.recomputed().visible.contains(i as usize),
{
    law_results(v);
    lemma_recomputed_keeps(v);
    law_haystack_holds_all(v.entries[i]);
    law_tabs_show_their_sources(v.entries[i].source);
    let r = v.recomputed();
    if r.visible.contains(i as usize) {
        let k = choose|k: int| 0 <= k < r.visible.len() && r.visible[k] == i as usize;
        assert(r.visible[k] as int == i);
    }
}

/// A line may end with a carriage return and a line feed as well; neither
/// belongs to the line.
pub proof fn law_ends_of_lines(first: Seq<char>, rest: Seq<char>)
    requires
        forall|i: int| 0 <= i < first.len() ==> #[trigger] first[i] != '\n',
    ensures
        lines(first + seq!['\r', '\n'] + rest) == seq![first] + lines(rest),
        first.len() > 0 ==> lines(first) == seq![first],
        lines(seq![]).len() == 0,
{
    let class = Class::Just('\n');
    let s = first + seq!['\r', '\n'] + rest;
    let n = first.len() as int + 1;
    assert(s[n] == '\n');
    assert forall|j: int| 0 <= j < n implies !class.has(#[trigger] s[j]) by {
        if j < first.len() {
            assert(s[j] == first[j]);
        }
    }
    lemma_first_of_is(s, class, n);
    assert(s.take(n) =~= first.push('\r'));
    assert(first.push('\r').drop_last() =~= first);
    assert(s.skip(n + 1) =~= rest);
    assert forall|i: int| 0 <= i < first.len() implies !class.has(#[trigger] first[i]) by {}
    lemma_first_of_none(first, class);
}

/// What querying a database gave is read row by row, as entries of the given
/// source; only a query that failed gives nothing to read. Where the source is
/// one of a browser, the history tab shows all of it.
pub proof fn law_database_rows(
    outcome: Result<String, String>,
    source: Seq<char>,
    detail: Seq<char>,
    i: int,
)
    ensures
        sqlite_entries(outcome, source, detail) is Some <==> outcome is Ok,
        outcome is Ok ==> sqlite_entries(outcome, source, detail)->0 == tsv_entries(
            outcome->Ok_0@,
            source,
            detail,
        ),
        outcome is Ok && 0 <= i < sqlite_entries(outcome, source, detail)->0.len()
            ==> sqlite_entries(outcome, source, detail)->0[i].source == source
            && sqlite_entries(outcome, source, detail)->0[i].url.len() > 0,
        outcome is Ok && 0 <= i < sqlite_entries(outcome, source, detail)->0.len() && (source
            == "history"@ || source == "bookmark"@) ==> Tab::History.shows(
            sqlite_entries(outcome, source, detail)->0[i].source,
        ),
{
    if outcome is Ok && 0 <= i < sqlite_entries(outcome, source, detail)->0.len() {
        let f = |line: Seq<char>| tsv_entry(line, source, detail);
        let all = lines(outcome->Ok_0@);
        let e = sqlite_entries(outcome, source, detail)->0[i];
        assert(all.filter_map(f).contains(e));
        all.lemma_filter_map_contains(f, e);
        let line = choose|line: Seq<char>| all.contains(line) && #[trigger] f(line) == Some(e);
        assert(tsv_entry(line, source, detail) == Some(e));
    }
}

} // verus!
