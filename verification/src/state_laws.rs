//! What holds of the state of the interface, whatever has been done to it.
use crate::config::{switches, ConfigView, RuntimeConfig};
use crate::config_items::config_items_of;
use crate::matchers::matched;
use crate::models::EntryView;
use crate::rank::{before, boost, law_ranked_entries, ranked_entries, stacked};
use crate::services::Service;
use crate::sources::{deduplicated, has_key, law_deduplicated};
use crate::state::{config_with_source, first_places, least, lemma_find_tab, less, lower, one_if};
use crate::state::{replaced, switches_with_source, tab_after, tab_before, tab_place, AppView};
use crate::state::{initial_state, ModeView};
use crate::tabs::Tab;
use vstd::prelude::*;
use vstd::string::*;

verus! {

// ---------------------------------------------------------------------------
// The window
// ---------------------------------------------------------------------------

/// After scrolling, the selected line stands in the window, which is full as
/// far as there are lines. Scrolling moves the window and changes nothing else,
/// and does not move it where the line stands in it already.
pub proof fn law_selection_is_in_view(v: AppView)
    requires
        v.height > 0,
        v.selected < v.visible.len(),
    ensures
        v.scrolled().in_view(),
        v.in_view() ==> v.scrolled() == v,
        v.scrolled() == (AppView { scroll_start: v.scrolled().scroll_start, ..v }),
        v.scrolled().window().len() == least(v.height, v.visible.len()),
        v.scrolled().window_place() < v.scrolled().window().len(),
        v.scrolled().window()[v.scrolled().window_place() as int] == v.visible[v.selected as int],
{
}

/// The window scrolls only when the selected line has left it, and then just
/// so far that this line is the first or the last one of the window.
pub proof fn law_scrolls_only_at_edges(v: AppView)
    requires
        v.height > 0,
        v.selected < v.visible.len(),
        v.scroll_start <= v.max_scroll(),
    ensures
        v.in_view() ==> v.scrolled() == v,
        v.selected < v.scroll_start ==> v.scrolled().window_place() == 0,
        v.selected >= v.scroll_start + v.height ==> v.scrolled().window_place() == v.height - 1,
{
}

proof fn lemma_selecting(v: AppView, line: nat)
    requires
        v.height > 0,
        line < v.visible.len(),
    ensures
        v.selecting(line).selected == line,
        v.selecting(line).in_view(),
{
}

/// Moving and paging never select a line beyond the last, and leave the
/// selected line in the window.
pub proof fn law_moves_stay_in_the_list(v: AppView)
    requires
        v.height > 0,
        v.selected < v.visible.len(),
        v.in_view(),
    ensures
        v.moved_up().selected < v.visible.len() && v.moved_up().in_view(),
        v.moved_down().selected < v.visible.len() && v.moved_down().in_view(),
        v.paged_up().selected < v.visible.len() && v.paged_up().in_view(),
        v.paged_down().selected < v.visible.len() && v.paged_down().in_view(),
        v.selecting(0).selected < v.visible.len() && v.selecting(0).in_view(),
        v.at_bottom().selected == v.visible.len() - 1 && v.at_bottom().in_view(),
{
    assert(v.moved_up().selected < v.visible.len() && v.moved_up().in_view()) by {
        if v.selected > 0 {
            lemma_selecting(v, (v.selected - 1) as nat);
        }
    }
    assert(v.moved_down().selected < v.visible.len() && v.moved_down().in_view()) by {
        if v.selected + 1 < v.visible.len() {
            lemma_selecting(v, v.selected + 1);
        }
    }
    lemma_selecting(v, less(v.selected, 10));
    lemma_selecting(v, lower(v.selected, 10, v.visible.len()));
    lemma_selecting(v, 0);
    lemma_selecting(v, (v.visible.len() - 1) as nat);
}

/// A step down and a step up, or up and down, come back to the same line.
pub proof fn law_steps_come_back(v: AppView)
    ensures
        v.selected + 1 < v.visible.len() ==> v.moved_down().moved_up().selected == v.selected,
        v.selected > 0 && v.selected < v.visible.len() ==> v.moved_up().moved_down().selected
            == v.selected,
{
}

// ---------------------------------------------------------------------------
// Results
// ---------------------------------------------------------------------------

/// The results are entries that the tab shows and the query matches, each once,
/// the better before the worse, at most three hundred; where there are fewer, they
/// are all that match. The selected line is one of them.
pub proof fn law_results(v: AppView)
    requires
        v.entries.len() <= usize::MAX,
    ensures
        ({
            let r = v.recomputed();
            &&& r.visible.len() <= 300
            &&& r.tab == Tab::Config ==> r.visible.len() == 0
            &&& r.visible.len() > 0 ==> r.selected < r.visible.len()
            &&& r.visible.len() > 0 && r.height > 0 ==> r.in_view()
            &&& forall|k: int|
                0 <= k < r.visible.len() ==> {
                    let place = #[trigger] r.visible[k];
                    &&& place < v.entries.len()
                    &&& r.tab.shows(v.entries[place as int].source)
                    &&& matched(v.query, v.entries[place as int].haystack()) is Some
                }
            &&& forall|j: int, k: int|
                0 <= j < k < r.visible.len() ==> ranks_before(
                    v,
                    #[trigger] r.visible[j],
                    #[trigger] r.visible[k],
                ) && r.visible[j] != r.visible[k]
            &&& r.visible.len() < 300 && r.tab != Tab::Config ==> forall|i: int|
                0 <= i < v.entries.len() && r.tab.shows((#[trigger] v.entries[i]).source)
                    && matched(v.query, v.entries[i].haystack()) is Some ==> r.visible.contains(
                    i as usize,
                )
        }),
{
    reveal(AppView::recomputed);
    let s = v.on_shown_tab();
    let r = v.recomputed();
    if s.tab != Tab::Config {
        let list = ranked_entries(s.entries, stacked(s.entries), s.query, Some(s.tab));
        law_ranked_entries(s.entries, stacked(s.entries), s.query, Some(s.tab));
        let visible = first_places(list, 300);
        assert(r.visible == visible);
        assert forall|k: int| 0 <= k < visible.len() implies ({
            let place = #[trigger] visible[k];
            &&& place < v.entries.len()
            &&& r.tab.shows(v.entries[place as int].source)
            &&& matched(v.query, v.entries[place as int].haystack()) is Some
        }) by {
            let (score, place) = list[k];
            assert(place < s.entries.len());
            assert(stacked(s.entries)[place as int] == s.entries[place as int].haystack());
        }
        assert forall|j: int, k: int| 0 <= j < k < visible.len() implies ranks_before(
            v,
            #[trigger] visible[j],
            #[trigger] visible[k],
        ) && visible[j] != visible[k] by {
            assert(before(list[j], list[k]));
            assert(list[j].1 != list[k].1);
            assert(list[j].1 < s.entries.len() && list[k].1 < s.entries.len());
            assert(stacked(s.entries)[list[j].1 as int] == s.entries[list[j].1 as int].haystack());
            assert(stacked(s.entries)[list[k].1 as int] == s.entries[list[k].1 as int].haystack());
        }
        if visible.len() < 300 {
            assert forall|i: int|
                0 <= i < v.entries.len() && r.tab.shows((#[trigger] v.entries[i]).source)
                    && matched(v.query, v.entries[i].haystack()) is Some implies visible.contains(
                i as usize,
            ) by {
                assert(stacked(s.entries)[i] == s.entries[i].haystack());
                let k = choose|k: int| 0 <= k < list.len() && #[trigger] list[k].1 == i;
                assert(visible[k] == i as usize);
            }
        }
        let t = AppView {
            visible,
            selected: least(s.selected, less(visible.len(), 1)),
            ..s
        }.clamped();
        if visible.len() > 0 && t.height > 0 {
            law_selection_is_in_view(t);
        }
    }
}

/// The points of an entry for the query.
pub open spec fn points(v: AppView, place: usize) -> int {
    let entry = v.entries[place as int];
    matched(v.query, entry.haystack())->0.score + boost(entry.source)
}

/// Whether an entry is shown before another: it has more points, or as many
/// and stands before it.
pub open spec fn ranks_before(v: AppView, a: usize, b: usize) -> bool {
    points(v, a) > points(v, b) || (points(v, a) == points(v, b) && a <= b)
}

// ---------------------------------------------------------------------------
// Tabs
// ---------------------------------------------------------------------------

proof fn lemma_tabs(v: AppView)
    ensures
        forall|tab: Tab| #[trigger] v.tabs().contains(tab) == v.tab_enabled(tab),
        forall|i: int, j: int|
            0 <= i < j < v.tabs().len() ==> (#[trigger] v.tabs()[i]) != (#[trigger] v.tabs()[j]),
{
    let a = one_if(v.switches.browser, Tab::History);
    let b = a + one_if(v.switches.github, Tab::GitHub);
    let c = b + one_if(v.switches.gitlab, Tab::GitLab);
    let d = c + one_if(v.switches.dockerhub, Tab::DockerHub);
    let e = d + one_if(v.config_tab_visible, Tab::Config);
    assert(e == v.tabs());
    assert(forall|i: int| 0 <= i < a.len() ==> #[trigger] a[i] == Tab::History);
    assert(forall|i: int| 0 <= i < b.len() ==> #[trigger] b[i] == Tab::History || b[i] == Tab::GitHub);
    assert(forall|i: int|
        0 <= i < c.len() ==> #[trigger] c[i] == Tab::History || c[i] == Tab::GitHub || c[i]
            == Tab::GitLab);
    assert(forall|i: int| 0 <= i < d.len() ==> #[trigger] d[i] != Tab::Config);
    assert forall|tab: Tab| #[trigger] v.tabs().contains(tab) == v.tab_enabled(tab) by {
        if v.switches.browser {
            assert(e[0] == Tab::History);
        }
        if v.switches.github {
            assert(e[a.len() as int] == Tab::GitHub);
        }
        if v.switches.gitlab {
            assert(e[b.len() as int] == Tab::GitLab);
        }
        if v.switches.dockerhub {
            assert(e[c.len() as int] == Tab::DockerHub);
        }
        if v.config_tab_visible {
            assert(e[d.len() as int] == Tab::Config);
        }
        if e.contains(tab) {
            let k = choose|k: int| 0 <= k < e.len() && e[k] == tab;
            if k < a.len() {
                assert(e[k] == a[k]);
            } else if k < b.len() {
                assert(e[k] == b[k]);
            } else if k < c.len() {
                assert(e[k] == c[k]);
            } else if k < d.len() {
                assert(e[k] == d[k]);
            }
        }
    }
}

/// After results have been worked out, the current tab is one that is shown;
/// only where no tab of a source is left it is the configuration, shown or
/// not.
pub proof fn law_current_tab_is_shown(v: AppView)
    ensures
        v.recomputed().tab_enabled(v.recomputed().tab) || v.recomputed().tab == Tab::Config,
        v.recomputed().tab == Tab::Config && !v.config_tab_visible ==> !v.switches.browser
            && !v.switches.github && !v.switches.gitlab && !v.switches.dockerhub,
        v.tab_enabled(v.tab) ==> v.recomputed().tab == v.tab,
{
    lemma_recomputed_keeps(v);
}

proof fn lemma_around(tabs: Seq<Tab>, tab: Tab)
    requires
        tabs.contains(tab),
        forall|i: int, j: int|
            0 <= i < j < tabs.len() ==> (#[trigger] tabs[i]) != (#[trigger] tabs[j]),
    ensures
        tabs.contains(tab_after(tabs, tab)),
        tabs.contains(tab_before(tabs, tab)),
        tab_before(tabs, tab_after(tabs, tab)) == tab,
        tab_after(tabs, tab_before(tabs, tab)) == tab,
{
    lemma_find_tab(tabs, tab);
    lemma_find_tab(tabs, tab_after(tabs, tab));
    lemma_find_tab(tabs, tab_before(tabs, tab));
    let i = tab_place(tabs, tab) as int;
    let after = if i + 1 < tabs.len() {
        i + 1
    } else {
        0
    };
    let before = if i > 0 {
        i - 1
    } else {
        tabs.len() - 1
    };
    assert(tabs[after] == tab_after(tabs, tab));
    assert(tabs[before] == tab_before(tabs, tab));
}

/// Working out the results changes nothing but the results, what is selected
/// among them, and a tab that is not shown.
pub proof fn lemma_recomputed_keeps(v: AppView)
    ensures
        v.recomputed() == (AppView {
            tab: v.on_shown_tab().tab,
            visible: v.recomputed().visible,
            selected: v.recomputed().selected,
            scroll_start: v.recomputed().scroll_start,
            ..v
        }),
{
    reveal(AppView::recomputed);
}

proof fn lemma_on_tab(v: AppView, tab: Tab)
    requires
        v.tab_enabled(tab),
    ensures
        v.on_tab(tab).tabs() == v.tabs(),
        v.on_tab(tab).tab == tab,
        v.on_tab(tab).switches == v.switches,
        v.on_tab(tab).config_tab_visible == v.config_tab_visible,
{
    lemma_recomputed_keeps(AppView { tab, selected: 0, scroll_start: 0, ..v });
}

/// The next tab and then the one before it is the tab from which it started.
pub proof fn law_next_tab_comes_back(v: AppView)
    requires
        v.tab_enabled(v.tab),
    ensures
        v.on_next_tab().on_previous_tab().tab == v.tab,
{
    let tabs = v.tabs();
    lemma_tabs(v);
    assert(tabs.contains(v.tab));
    lemma_around(tabs, v.tab);
    let next = tab_after(tabs, v.tab);
    assert(v.tabs().contains(next));
    lemma_on_tab(v, next);
    let w = v.on_tab(next);
    assert(w.tab_enabled(v.tab));
    lemma_on_tab(w, v.tab);
}

/// The tab before and then the next one is the tab from which it started.
pub proof fn law_previous_tab_comes_back(v: AppView)
    requires
        v.tab_enabled(v.tab),
    ensures
        v.on_previous_tab().on_next_tab().tab == v.tab,
{
    let tabs = v.tabs();
    lemma_tabs(v);
    assert(tabs.contains(v.tab));
    lemma_around(tabs, v.tab);
    let previous = tab_before(tabs, v.tab);
    assert(v.tabs().contains(previous));
    lemma_on_tab(v, previous);
    let w = v.on_tab(previous);
    assert(w.tab_enabled(v.tab));
    lemma_on_tab(w, v.tab);
}

proof fn lemma_toggled(v: AppView)
    ensures
        v.config_tab_toggled().switches == v.switches,
        v.config_tab_toggled().config_tab_visible == !v.config_tab_visible,
        v.config_tab_toggled().mode == ModeView::Normal,
        !v.config_tab_visible ==> v.config_tab_toggled().tab == Tab::Config,
{
    let shown = !v.config_tab_visible;
    let w = AppView {
        config_tab_visible: shown,
        mode: ModeView::Normal,
        tab: if shown {
            Tab::Config
        } else if v.tab == Tab::Config {
            Tab::History
        } else {
            v.tab
        },
        message: if shown {
            "Config tab shown."@
        } else {
            "Config tab hidden."@
        },
        selected: 0,
        scroll_start: 0,
        ..v
    };
    lemma_recomputed_keeps(w.on_shown_tab());
}

/// Toggling the configuration tab twice brings back the tabs as they were. A
/// configuration tab that has just been shown is open.
pub proof fn law_config_tab_comes_back(v: AppView)
    ensures
        v.config_tab_toggled().config_tab_toggled().tabs() == v.tabs(),
        v.config_tab_toggled().config_tab_visible == !v.config_tab_visible,
        !v.config_tab_visible ==> v.config_tab_toggled().tab == Tab::Config,
        v.config_tab_toggled().mode == ModeView::Normal,
{
    lemma_toggled(v);
    lemma_toggled(v.config_tab_toggled());
}

// ---------------------------------------------------------------------------
// Entries and sources
// ---------------------------------------------------------------------------

/// Replacing the entries of some sources leaves those of all others, takes all
/// new ones that have an address, and keeps none of the old ones of these
/// sources.
pub proof fn law_replacing_keeps_the_others(
    entries: Seq<EntryView>,
    sources: Seq<Seq<char>>,
    rows: Seq<EntryView>,
)
    ensures
        forall|i: int|
            0 <= i < entries.len() && !sources.contains((#[trigger] entries[i]).source)
                && entries[i].url.len() > 0 ==> has_key(
                replaced(entries, sources, rows),
                entries[i].key(),
            ),
        forall|i: int|
            0 <= i < rows.len() && (#[trigger] rows[i]).url.len() > 0 ==> has_key(
                replaced(entries, sources, rows),
                rows[i].key(),
            ),
        forall|i: int|
            0 <= i < replaced(entries, sources, rows).len() ==> {
                let e = #[trigger] replaced(entries, sources, rows)[i];
                ||| rows.contains(e)
                ||| entries.contains(e) && !sources.contains(e.source)
            },
{
    let p = |e: EntryView| !sources.contains(e.source);
    let kept = entries.filter(p);
    let all = kept + rows;
    let out = replaced(entries, sources, rows);
    law_deduplicated(all);
    broadcast use vstd::seq_lib::group_filter_ensures;

    assert forall|i: int|
        0 <= i < entries.len() && !sources.contains((#[trigger] entries[i]).source)
            && entries[i].url.len() > 0 implies has_key(out, entries[i].key()) by {
        assert(p(entries[i]));
        assert(entries.contains(entries[i]));
        assert(kept.contains(entries[i]));
        let k = choose|k: int| 0 <= k < kept.len() && kept[k] == entries[i];
        assert(all[k] == entries[i]);
    }
    assert forall|i: int| 0 <= i < rows.len() && (#[trigger] rows[i]).url.len() > 0 implies has_key(
        out,
        rows[i].key(),
    ) by {
        assert(all[kept.len() + i] == rows[i]);
    }
    assert forall|i: int| 0 <= i < out.len() implies ({
        let e = #[trigger] out[i];
        ||| rows.contains(e)
        ||| entries.contains(e) && !sources.contains(e.source)
    }) by {
        assert(out[i].url.len() > 0 && all.contains(out[i]));
        let k = choose|k: int| 0 <= k < all.len() && all[k] == out[i];
        if k < kept.len() {
            assert(kept[k] == out[i]);
            assert(kept.contains(kept[k]));
            entries.lemma_filter_contains_rev(p, kept[k]);
            assert(p(kept[k]));
        } else {
            assert(rows[k - kept.len()] == out[i]);
        }
    }
}

/// After the entries of some sources have been replaced, the entries are those
/// of the other sources and the new ones, each with an address and no key
/// twice, and what is shown are places among them.
pub proof fn law_replacing_shows_entries(v: AppView, sources: Seq<Seq<char>>, rows: Seq<EntryView>)
    requires
        replaced(v.entries, sources, rows).len() <= usize::MAX,
    ensures
        ({
            let w = v.with_replaced(sources, rows);
            &&& w.entries == deduplicated(
                v.entries.filter(|e: EntryView| !sources.contains(e.source)) + rows,
            )
            &&& forall|i: int|
                0 <= i < w.entries.len() ==> (#[trigger] w.entries[i]).url.len() > 0
            &&& forall|i: int, j: int|
                0 <= i < j < w.entries.len() ==> (#[trigger] w.entries[i]).key() != (
                #[trigger] w.entries[j]).key()
            &&& forall|k: int|
                0 <= k < w.visible.len() ==> (#[trigger] w.visible[k]) < w.entries.len()
        }),
{
    let all = v.entries.filter(|e: EntryView| !sources.contains(e.source)) + rows;
    let u = AppView { entries: replaced(v.entries, sources, rows), ..v };
    law_deduplicated(all);
    lemma_recomputed_keeps(u);
    law_results(u);
}

/// Switching a source on or off in the configuration tab keeps the
/// configuration and the switches alike.
pub proof fn law_switches_follow_the_config(v: AppView, level1: Seq<char>, enabled: bool)
    requires
        v.switches == switches(v.config),
    ensures
        v.with_source(level1, enabled).switches == switches(v.with_source(level1, enabled).config),
{
    assert(switches_with_source(v.switches, level1, enabled) == switches(
        config_with_source(v.config, level1, enabled),
    ));
}

/// The tabs that are shown are those of the sources that are switched on, and
/// the configuration where it is not hidden, always in the same order.
pub proof fn law_tabs_in_order(v: AppView, i: int, j: int)
    ensures
        v.tabs().contains(Tab::History) <==> v.switches.browser,
        v.tabs().contains(Tab::GitHub) <==> v.switches.github,
        v.tabs().contains(Tab::GitLab) <==> v.switches.gitlab,
        v.tabs().contains(Tab::DockerHub) <==> v.switches.dockerhub,
        v.tabs().contains(Tab::Config) <==> v.config_tab_visible,
        0 <= i < j < v.tabs().len() ==> tab_rank(v.tabs()[i]) < tab_rank(v.tabs()[j]),
{
    lemma_tabs(v);
    assert(v.tabs().contains(Tab::History) == v.tab_enabled(Tab::History));
    assert(v.tabs().contains(Tab::GitHub) == v.tab_enabled(Tab::GitHub));
    assert(v.tabs().contains(Tab::GitLab) == v.tab_enabled(Tab::GitLab));
    assert(v.tabs().contains(Tab::DockerHub) == v.tab_enabled(Tab::DockerHub));
    assert(v.tabs().contains(Tab::Config) == v.tab_enabled(Tab::Config));
}

/// The place of a tab where all are shown.
pub open spec fn tab_rank(tab: Tab) -> int {
    match tab {
        Tab::History => 0,
        Tab::GitHub => 1,
        Tab::GitLab => 2,
        Tab::DockerHub => 3,
        Tab::Config => 4,
    }
}

/// The next tab stands behind the current one among those that are shown, the
/// previous one before it; the first follows the last.
pub proof fn law_neighbours(v: AppView, i: int)
    requires
        0 <= i < v.tabs().len(),
        v.tab == v.tabs()[i],
    ensures
        i + 1 < v.tabs().len() ==> v.on_next_tab().tab == v.tabs()[i + 1],
        i + 1 == v.tabs().len() ==> v.on_next_tab().tab == v.tabs()[0],
        i > 0 ==> v.on_previous_tab().tab == v.tabs()[i - 1],
        i == 0 ==> v.on_previous_tab().tab == v.tabs().last(),
        v.tab_index() == i,
{
    let tabs = v.tabs();
    lemma_tabs(v);
    lemma_find_tab(tabs, v.tab);
    assert(tabs.contains(v.tab));
    assert(tab_place(tabs, v.tab) == i) by {
        let k = tab_place(tabs, v.tab) as int;
        if k < i {
            assert(tabs[k] != tabs[i]);
        }
    }
    let next = tab_after(tabs, v.tab);
    let previous = tab_before(tabs, v.tab);
    assert(tabs.contains(next));
    assert(tabs.contains(previous));
    lemma_on_tab(v, next);
    lemma_on_tab(v, previous);
}

/// A tab that is no longer shown is left for the first one of a source that is;
/// one that is shown is not left.
pub proof fn law_hidden_tabs_are_left(v: AppView)
    ensures
        v.tabs().contains(v.tab) ==> v.on_shown_tab() == v,
        !v.tabs().contains(v.tab) ==> {
            let w = v.on_shown_tab();
            &&& w == (AppView { tab: w.tab, selected: 0, scroll_start: 0, ..v })
            &&& v.switches.browser ==> w.tab == Tab::History
            &&& !v.switches.browser && v.switches.github ==> w.tab == Tab::GitHub
            &&& !v.switches.browser && !v.switches.github && v.switches.gitlab ==> w.tab
                == Tab::GitLab
            &&& !v.switches.browser && !v.switches.github && !v.switches.gitlab
                && v.switches.dockerhub ==> w.tab == Tab::DockerHub
            &&& !v.switches.browser && !v.switches.github && !v.switches.gitlab
                && !v.switches.dockerhub ==> w.tab == Tab::Config
        },
{
    lemma_tabs(v);
    assert(v.tabs().contains(v.tab) == v.tab_enabled(v.tab));
}

/// The program starts with an empty query, no menu, and the first tab that is
/// shown, over the entries and the configuration that it is given.
pub proof fn law_start(
    entries: Seq<EntryView>,
    config: ConfigView,
    on: RuntimeConfig,
)
    ensures
        ({
            let v = initial_state(entries, config, on);
            &&& v.entries == entries && v.config == config && v.switches == on
            &&& v.items == config_items_of(config)
            &&& v.query.len() == 0 && v.mode == ModeView::Normal && v.config_tab_visible
            &&& v.message == "Type to search."@
            &&& on.browser ==> v.tab == Tab::History
            &&& !on.browser && on.github ==> v.tab == Tab::GitHub
            &&& v.tab_enabled(v.tab)
        }),
{
    let start = AppView {
        entries,
        config,
        items: config_items_of(config),
        switches: on,
        visible: seq![],
        query: seq![],
        selected: 0,
        scroll_start: 0,
        height: 0,
        message: "Type to search."@,
        tab: Tab::History,
        config_tab_visible: true,
        cursor_visible: true,
        mode: ModeView::Normal,
        dirty: false,
    };
    lemma_recomputed_keeps(start);
}

/// Opening another tab keeps the query and works out the results for that tab,
/// from the first line on. A change of the query does so too, once it is taken
/// up.
pub proof fn law_results_follow(v: AppView, tab: Tab)
    ensures
        v.on_tab(tab) == (AppView { tab, selected: 0, scroll_start: 0, ..v }).recomputed(),
        v.on_tab(tab).query == v.query,
        v.on_tab(tab).entries == v.entries,
        v.dirty ==> v.flushed() == (AppView { dirty: false, ..v.recomputed() }),
        !v.dirty ==> v.flushed() == v,
{
    lemma_recomputed_keeps(AppView { tab, selected: 0, scroll_start: 0, ..v });
}

/// Switching a source by its heading switches that source alone, in the
/// configuration and for the tabs.
pub proof fn law_switching_a_source(v: AppView, level1: Seq<char>, on: bool)
    ensures
        ({
            let w = v.with_source(level1, on);
            &&& level1 == "Browser"@ ==> w.config == (ConfigView {
                include_browser: on,
                ..v.config
            }) && w.switches == (RuntimeConfig { browser: on, ..v.switches })
            &&& level1 == "GitHub"@ ==> w.config == (ConfigView { include_github: on, ..v.config })
                && w.switches == (RuntimeConfig { github: on, ..v.switches })
            &&& level1 == "GitLab"@ ==> w.config == (ConfigView { include_gitlab: on, ..v.config })
                && w.switches == (RuntimeConfig { gitlab: on, ..v.switches })
            &&& level1 == "DockerHub"@ ==> w.config == (ConfigView {
                include_dockerhub: on,
                ..v.config
            }) && w.switches == (RuntimeConfig { dockerhub: on, ..v.switches })
        }),
{
    reveal_strlit("Browser");
    reveal_strlit("GitHub");
    reveal_strlit("GitLab");
    reveal_strlit("DockerHub");
    assert("Browser"@.len() == 7 && "GitHub"@.len() == 6 && "GitLab"@.len() == 6
        && "DockerHub"@.len() == 9);
    assert("GitHub"@[3] != "GitLab"@[3]);
}

/// A tab, the refresh that it asks for and the service that answers go by the
/// same name, and no two by the same.
pub proof fn law_names(tab: Tab, service: Service)
    ensures
        Tab::History.title() == "History"@ && Tab::GitHub.title() == "GitHub"@
            && Tab::GitLab.title() == "GitLab"@ && Tab::DockerHub.title() == "DockerHub"@
            && Tab::Config.title() == "Config"@,
        tab.refreshes() matches Some(r) ==> r.title() == tab.title(),
        service == Service::GitHub ==> service.title() == "GitHub"@ && service.cache()
            == "github"@,
        service == Service::GitLab ==> service.title() == "GitLab"@ && service.cache()
            == "gitlab"@,
        service == Service::DockerHub ==> service.title() == "DockerHub"@ && service.cache()
            == "dockerhub"@,
{
}

/// The window shows neighbouring lines of the results, in their order, from
/// where it was scrolled to.
pub proof fn law_window(v: AppView, i: int)
    requires
        v.scroll_start <= v.max_scroll(),
        v.height > 0,
        0 <= i < v.window().len(),
    ensures
        v.window()[i] == v.visible[v.scroll_start + i],
        v.window().len() == (if v.visible.len() < v.height {
            v.visible.len()
        } else {
            v.height
        }),
        v.max_scroll() == (if v.visible.len() < v.height {
            0
        } else {
            v.visible.len() - v.height
        }),
{
}

/// Fitting the window to the screen changes the window alone.
pub proof fn law_fitting_the_window(v: AppView, height: nat)
    ensures
        v.in_window_of(height).height == height,
        v.in_window_of(height) == (AppView {
            height,
            scroll_start: v.in_window_of(height).scroll_start,
            ..v
        }),
        v.selected < v.visible.len() && height > 0 ==> v.in_window_of(height).in_view(),
{
}

/// Working out the results keeps the place of the selected line as far as there
/// are lines, unless the tab had to be left.
pub proof fn law_selection_is_kept(v: AppView)
    requires
        v.tab_enabled(v.tab),
    ensures
        ({
            let r = v.recomputed();
            &&& v.tab != Tab::Config ==> r.selected == (if v.selected < r.visible.len()
                || r.visible.len() == 0 && v.selected == 0 {
                v.selected
            } else if r.visible.len() == 0 {
                0
            } else {
                (r.visible.len() - 1) as nat
            })
            &&& v.tab == Tab::Config && v.selected < v.config_rows().len() ==> r.selected
                == v.selected
            &&& v.tab == Tab::Config && v.config_rows().len() > 0 ==> r.selected
                < v.config_rows().len()
        }),
{
    reveal(AppView::recomputed);
}

} // verus!
