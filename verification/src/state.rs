//! The state of the interface: what is searched, what is shown, what is
//! selected.
use crate::config::{switches, Config, ConfigView, RuntimeConfig};
use crate::config_items::{build_config_items, config_items_of, item_views, ConfigItem, ItemView};
use crate::config_rows::{config_display_rows, display_rows, items_searchable, row_views};
use crate::config_rows::{ConfigDisplayRow, RowView};
use crate::keymap::AppModeKind;
use crate::layout::{pop_grapheme, shorter};
use crate::matchers::{can_match, matchable};
use crate::models::{views, Entry, EntryView};
use crate::rank::{entry_haystacks, law_ranked_entries, rank_entries, ranked_entries};
use crate::rank::{scope_searchable, searchable, stacked};
use crate::sources::{add_rows, deduplicate, deduplicated, law_deduplicated};
use crate::tabs::Tab;
use crate::text::{opt_text, same, texts};
use vstd::prelude::*;
use vstd::string::*;

verus! {

// ---------------------------------------------------------------------------
// Modes
// ---------------------------------------------------------------------------

#[derive(Debug)]
pub enum AppMode {
    Normal,
    TagList { repo: String, tags: Vec<String>, selected: usize },
    ActionMenu { repo: String, tag: Option<String>, tags: Vec<String>, selected: usize },
    RepoMenu { selected: usize },
    ConfigEdit { item_index: usize, buffer: String },
}

/// What a mode holds.
#[verifier::ext_equal]
pub enum ModeView {
    Normal,
    TagList { repo: Seq<char>, tags: Seq<Seq<char>>, selected: nat },
    ActionMenu {
        repo: Seq<char>,
        tag: Option<Seq<char>>,
        tags: Seq<Seq<char>>,
        selected: nat,
    },
    RepoMenu { selected: nat },
    ConfigEdit { item_index: nat, buffer: Seq<char> },
}

impl View for AppMode {
    type V = ModeView;

    open spec fn view(&self) -> ModeView {
        match self {
            AppMode::Normal => ModeView::Normal,
            AppMode::TagList { repo, tags, selected } => ModeView::TagList {
                repo: repo@,
                tags: texts(tags@),
                selected: *selected as nat,
            },
            AppMode::ActionMenu { repo, tag, tags, selected } => ModeView::ActionMenu {
                repo: repo@,
                tag: opt_text(*tag),
                tags: texts(tags@),
                selected: *selected as nat,
            },
            AppMode::RepoMenu { selected } => ModeView::RepoMenu { selected: *selected as nat },
            AppMode::ConfigEdit { item_index, buffer } => ModeView::ConfigEdit {
                item_index: *item_index as nat,
                buffer: buffer@,
            },
        }
    }
}

impl ModeView {
    pub open spec fn kind(self) -> AppModeKind {
        match self {
            ModeView::Normal => AppModeKind::Normal,
            ModeView::TagList { .. } => AppModeKind::TagList,
            ModeView::ActionMenu { .. } => AppModeKind::ActionMenu,
            ModeView::RepoMenu { .. } => AppModeKind::RepoMenu,
            ModeView::ConfigEdit { .. } => AppModeKind::ConfigEdit,
        }
    }

    /// What is selected in a menu is one of its lines.
    pub open spec fn valid(self) -> bool {
        match self {
            ModeView::TagList { tags, selected, .. } => selected < tags.len(),
            ModeView::ActionMenu { selected, .. } => selected < 2,
            ModeView::RepoMenu { selected } => selected < 2,
            _ => true,
        }
    }
}

impl AppMode {
    pub fn kind(&self) -> (r: AppModeKind)
        ensures
            r == self@.kind(),
    {
        match self {
            AppMode::Normal => AppModeKind::Normal,
            AppMode::TagList { .. } => AppModeKind::TagList,
            AppMode::ActionMenu { .. } => AppModeKind::ActionMenu,
            AppMode::RepoMenu { .. } => AppModeKind::RepoMenu,
            AppMode::ConfigEdit { .. } => AppModeKind::ConfigEdit,
        }
    }
}

// ---------------------------------------------------------------------------
// The state and its model
// ---------------------------------------------------------------------------

#[derive(Debug)]
pub struct AppState {
    pub entries: Vec<Entry>,
    pub haystacks: Vec<String>,
    pub config: Config,
    pub config_items: Vec<ConfigItem>,
    pub runtime_config: RuntimeConfig,
    pub visible: Vec<usize>,
    pub query: String,
    pub selected: usize,
    pub scroll_start: usize,
    pub result_viewport_height: usize,
    pub message: String,
    pub tab: Tab,
    pub config_tab_visible: bool,
    pub cursor_visible: bool,
    pub mode: AppMode,
    pub dirty: bool,
}

/// What the state holds.
#[verifier::ext_equal]
pub struct AppView {
    pub entries: Seq<EntryView>,
    pub config: ConfigView,
    pub items: Seq<ItemView>,
    pub switches: RuntimeConfig,
    pub visible: Seq<usize>,
    pub query: Seq<char>,
    pub selected: nat,
    pub scroll_start: nat,
    pub height: nat,
    pub message: Seq<char>,
    pub tab: Tab,
    pub config_tab_visible: bool,
    pub cursor_visible: bool,
    pub mode: ModeView,
    pub dirty: bool,
}

impl View for AppState {
    type V = AppView;

    open spec fn view(&self) -> AppView {
        AppView {
            entries: views(self.entries@),
            config: self.config@,
            items: item_views(self.config_items@),
            switches: self.runtime_config,
            visible: self.visible@,
            query: self.query@,
            selected: self.selected as nat,
            scroll_start: self.scroll_start as nat,
            height: self.result_viewport_height as nat,
            message: self.message@,
            tab: self.tab,
            config_tab_visible: self.config_tab_visible,
            cursor_visible: self.cursor_visible,
            mode: self.mode@,
            dirty: self.dirty,
        }
    }
}

/// `a - b`, but not below nothing.
pub open spec fn less(a: nat, b: nat) -> nat {
    if a >= b {
        (a - b) as nat
    } else {
        0
    }
}

pub open spec fn least(a: nat, b: nat) -> nat {
    if a <= b {
        a
    } else {
        b
    }
}

/// `selected` moved down by `by` lines, but not below the last of `count`.
pub open spec fn lower(selected: nat, by: nat, count: nat) -> nat {
    least(selected + by, less(count, 1))
}

/// The place of a tab among the tabs.
pub open spec fn find_tab(tabs: Seq<Tab>, tab: Tab) -> Option<nat>
    decreases tabs.len(),
{
    if tabs.len() == 0 {
        None
    } else if tabs[0] == tab {
        Some(0)
    } else {
        match find_tab(tabs.drop_first(), tab) {
            Some(i) => Some(i + 1),
            None => None,
        }
    }
}

/// The place of a tab among the tabs; the first where it is none of them.
pub open spec fn tab_place(tabs: Seq<Tab>, tab: Tab) -> nat {
    match find_tab(tabs, tab) {
        Some(i) => i,
        None => 0,
    }
}

/// The tab behind another; behind the last comes the first.
pub open spec fn tab_after(tabs: Seq<Tab>, tab: Tab) -> Tab {
    if tab_place(tabs, tab) + 1 < tabs.len() {
        tabs[tab_place(tabs, tab) as int + 1]
    } else {
        tabs[0]
    }
}

/// The tab before another; before the first comes the last.
pub open spec fn tab_before(tabs: Seq<Tab>, tab: Tab) -> Tab {
    if tab_place(tabs, tab) > 0 {
        tabs[tab_place(tabs, tab) - 1]
    } else {
        tabs[tabs.len() - 1]
    }
}

/// The first `n` places of a ranking.
pub open spec fn first_places(list: Seq<(i64, usize)>, n: nat) -> Seq<usize> {
    Seq::new(least(list.len(), n), |i: int| list[i].1)
}

pub open spec fn one_if(condition: bool, tab: Tab) -> Seq<Tab> {
    if condition {
        seq![tab]
    } else {
        seq![]
    }
}

/// The entries after those of some sources have been replaced: the others
/// first, each result once.
pub open spec fn replaced(
    entries: Seq<EntryView>,
    sources: Seq<Seq<char>>,
    rows: Seq<EntryView>,
) -> Seq<EntryView> {
    deduplicated(entries.filter(|e: EntryView| !sources.contains(e.source)) + rows)
}

/// A configuration with a source switched on or off, named by its heading.
pub open spec fn config_with_source(
    config: ConfigView,
    level1: Seq<char>,
    enabled: bool,
) -> ConfigView {
    if level1 == "Browser"@ {
        ConfigView { include_browser: enabled, ..config }
    } else if level1 == "GitHub"@ {
        ConfigView { include_github: enabled, ..config }
    } else if level1 == "GitLab"@ {
        ConfigView { include_gitlab: enabled, ..config }
    } else if level1 == "DockerHub"@ {
        ConfigView { include_dockerhub: enabled, ..config }
    } else {
        config
    }
}

/// Switches with that of a source on or off, named by its heading.
pub open spec fn switches_with_source(
    switches: RuntimeConfig,
    level1: Seq<char>,
    enabled: bool,
) -> RuntimeConfig {
    if level1 == "Browser"@ {
        RuntimeConfig { browser: enabled, ..switches }
    } else if level1 == "GitHub"@ {
        RuntimeConfig { github: enabled, ..switches }
    } else if level1 == "GitLab"@ {
        RuntimeConfig { gitlab: enabled, ..switches }
    } else if level1 == "DockerHub"@ {
        RuntimeConfig { dockerhub: enabled, ..switches }
    } else {
        switches
    }
}

impl AppView {
    /// What is shown are entries, and what is selected in a menu is one of its
    /// lines.
    pub open spec fn valid(self) -> bool {
        &&& forall|k: int|
            0 <= k < self.visible.len() ==> (#[trigger] self.visible[k]) < self.entries.len()
        &&& self.mode.valid()
    }

    /// Whether the matcher can take the query and all that is searched.
    pub open spec fn searchable(self) -> bool {
        searchable(stacked(self.entries), self.query) && items_searchable(self.items, self.query)
    }

    /// Whether the matcher can take the query and all that the current tab
    /// searches.
    pub open spec fn tab_searchable(self) -> bool {
        let s = self.on_shown_tab();
        if s.tab == Tab::Config {
            items_searchable(s.items, s.query)
        } else {
            scope_searchable(s.entries, stacked(s.entries), s.query, Some(s.tab))
        }
    }

    // Tabs

    pub open spec fn tab_enabled(self, tab: Tab) -> bool {
        match tab {
            Tab::History => self.switches.browser,
            Tab::GitHub => self.switches.github,
            Tab::GitLab => self.switches.gitlab,
            Tab::DockerHub => self.switches.dockerhub,
            Tab::Config => self.config_tab_visible,
        }
    }

    /// The tabs of the sources that are switched on, and the configuration.
    pub open spec fn tabs(self) -> Seq<Tab> {
        one_if(self.switches.browser, Tab::History) + one_if(self.switches.github, Tab::GitHub)
            + one_if(self.switches.gitlab, Tab::GitLab) + one_if(
            self.switches.dockerhub,
            Tab::DockerHub,
        ) + one_if(self.config_tab_visible, Tab::Config)
    }

    /// The place of the current tab.
    pub open spec fn tab_index(self) -> nat {
        tab_place(self.tabs(), self.tab)
    }

    /// The first tab of a source; the configuration if all are switched off.
    pub open spec fn first_source_tab(self) -> Tab {
        if self.switches.browser {
            Tab::History
        } else if self.switches.github {
            Tab::GitHub
        } else if self.switches.gitlab {
            Tab::GitLab
        } else if self.switches.dockerhub {
            Tab::DockerHub
        } else {
            Tab::Config
        }
    }

    /// The state with a current tab that is shown.
    pub open spec fn on_shown_tab(self) -> AppView {
        if self.tab_enabled(self.tab) {
            self
        } else {
            AppView { tab: self.first_source_tab(), selected: 0, scroll_start: 0, ..self }
        }
    }

    // Scrolling

    pub open spec fn max_scroll(self) -> nat {
        less(self.visible.len(), self.height)
    }

    pub open spec fn clamped(self) -> AppView {
        AppView { scroll_start: least(self.scroll_start, self.max_scroll()), ..self }
    }

    /// The state scrolled as far as the selected line needs.
    pub open spec fn scrolled(self) -> AppView {
        if self.visible.len() == 0 || self.height == 0 {
            AppView { scroll_start: 0, ..self }
        } else if self.selected < self.scroll_start {
            AppView { scroll_start: self.selected, ..self }.clamped()
        } else if self.selected >= self.scroll_start + self.height {
            AppView {
                scroll_start: (self.selected + 1 - self.height) as nat,
                ..self
            }.clamped()
        } else {
            self.clamped()
        }
    }

    /// Whether the selected line is in the window, and the window in the list.
    pub open spec fn in_view(self) -> bool {
        self.scroll_start <= self.selected < self.scroll_start + self.height && self.scroll_start
            <= self.max_scroll()
    }

    /// The lines of the window.
    pub open spec fn window(self) -> Seq<usize> {
        if self.visible.len() == 0 || self.height == 0 {
            seq![]
        } else {
            let start = least(self.scroll_start, self.max_scroll());
            self.visible.subrange(
                start as int,
                least(start + self.height, self.visible.len()) as int,
            )
        }
    }

    /// The place of the selected line in the window.
    pub open spec fn window_place(self) -> nat {
        if self.visible.len() == 0 || self.height == 0 {
            0
        } else {
            less(self.selected, self.scroll_start)
        }
    }

    // Results

    /// The rows of the configuration tab.
    pub open spec fn config_rows(self) -> Seq<RowView> {
        display_rows(self.items, self.query)
    }

    /// The state with its results worked out anew.
    #[verifier::opaque]
    pub open spec fn recomputed(self) -> AppView {
        let s = self.on_shown_tab();
        if s.tab == Tab::Config {
            AppView {
                visible: seq![],
                selected: least(s.selected, less(s.config_rows().len(), 1)),
                scroll_start: 0,
                ..s
            }
        } else {
            let visible = first_places(
                ranked_entries(s.entries, stacked(s.entries), s.query, Some(s.tab)),
                300,
            );
            AppView {
                visible,
                selected: least(s.selected, less(visible.len(), 1)),
                ..s
            }.clamped().scrolled()
        }
    }

    /// The entry that is selected.
    pub open spec fn selected_place(self) -> Option<usize> {
        if self.selected < self.visible.len() && self.visible[self.selected as int]
            < self.entries.len() {
            Some(self.visible[self.selected as int])
        } else {
            None
        }
    }

    /// The setting that is selected.
    pub open spec fn selected_item(self) -> Option<usize> {
        if self.selected < self.config_rows().len() {
            match self.config_rows()[self.selected as int] {
                RowView::Item(i) => Some(i),
                RowView::Group(_) => None,
            }
        } else {
            None
        }
    }

    // What changes it

    pub open spec fn flushed(self) -> AppView {
        if self.dirty {
            AppView { dirty: false, ..self.recomputed() }
        } else {
            self
        }
    }

    pub open spec fn in_window_of(self, height: nat) -> AppView {
        AppView { height, ..self }.clamped().scrolled()
    }

    pub open spec fn with_query(self, query: Seq<char>) -> AppView {
        AppView { query, selected: 0, scroll_start: 0, dirty: true, ..self }
    }

    pub open spec fn selecting(self, selected: nat) -> AppView {
        AppView { selected, ..self }.scrolled()
    }

    pub open spec fn moved_up(self) -> AppView {
        if self.selected > 0 {
            self.selecting((self.selected - 1) as nat)
        } else {
            self
        }
    }

    pub open spec fn moved_down(self) -> AppView {
        if self.selected + 1 < self.visible.len() {
            self.selecting(self.selected + 1)
        } else {
            self
        }
    }

    pub open spec fn paged_up(self) -> AppView {
        self.selecting(less(self.selected, 10))
    }

    pub open spec fn paged_down(self) -> AppView {
        if self.visible.len() == 0 {
            self
        } else {
            self.selecting(lower(self.selected, 10, self.visible.len()))
        }
    }

    pub open spec fn at_bottom(self) -> AppView {
        if self.visible.len() == 0 {
            self
        } else {
            self.selecting((self.visible.len() - 1) as nat)
        }
    }

    pub open spec fn config_moved_up(self) -> AppView {
        AppView { selected: less(self.selected, 1), ..self }
    }

    pub open spec fn config_moved_down(self) -> AppView {
        if self.selected + 1 < self.config_rows().len() {
            AppView { selected: self.selected + 1, ..self }
        } else {
            self
        }
    }

    pub open spec fn config_paged_up(self) -> AppView {
        AppView { selected: less(self.selected, 10), ..self }
    }

    pub open spec fn config_paged_down(self) -> AppView {
        if self.config_rows().len() > 0 {
            AppView { selected: lower(self.selected, 10, self.config_rows().len()), ..self }
        } else {
            self
        }
    }

    pub open spec fn on_tab(self, tab: Tab) -> AppView {
        AppView { tab, selected: 0, scroll_start: 0, ..self }.recomputed()
    }

    /// The state on the tab behind the current one.
    pub open spec fn on_next_tab(self) -> AppView {
        if self.tabs().len() == 0 {
            self
        } else {
            self.on_tab(tab_after(self.tabs(), self.tab))
        }
    }

    /// The state on the tab before the current one.
    pub open spec fn on_previous_tab(self) -> AppView {
        if self.tabs().len() == 0 {
            self
        } else {
            self.on_tab(tab_before(self.tabs(), self.tab))
        }
    }

    /// The state with the configuration tab shown and opened, or hidden.
    pub open spec fn config_tab_toggled(self) -> AppView {
        let shown = !self.config_tab_visible;
        AppView {
            config_tab_visible: shown,
            mode: ModeView::Normal,
            tab: if shown {
                Tab::Config
            } else if self.tab == Tab::Config {
                Tab::History
            } else {
                self.tab
            },
            message: if shown {
                "Config tab shown."@
            } else {
                "Config tab hidden."@
            },
            selected: 0,
            scroll_start: 0,
            ..self
        }.on_shown_tab().recomputed()
    }

    /// The state with a source switched on or off, named by its heading.
    pub open spec fn with_source(self, level1: Seq<char>, enabled: bool) -> AppView {
        AppView {
            config: config_with_source(self.config, level1, enabled),
            switches: switches_with_source(self.switches, level1, enabled),
            ..self
        }.on_shown_tab()
    }

    /// The state after the entries of some sources have been replaced.
    pub open spec fn with_replaced(self, sources: Seq<Seq<char>>, rows: Seq<EntryView>) -> AppView {
        AppView { entries: replaced(self.entries, sources, rows), ..self }.recomputed()
    }

    pub open spec fn with_items(self) -> AppView {
        AppView { items: config_items_of(self.config), ..self }
    }
}

/// The state at the start.
pub open spec fn initial_state(
    entries: Seq<EntryView>,
    config: ConfigView,
    switches: RuntimeConfig,
) -> AppView {
    AppView {
        entries,
        config,
        items: config_items_of(config),
        switches,
        visible: seq![],
        query: seq![],
        selected: 0,
        scroll_start: 0,
        height: 0,
        message: "Type to search."@,
        tab: Tab::History,
        config_tab_visible: true,
        cursor_visible: true,
        mode: ModeView::Normal,
        dirty: false,
    }.recomputed()
}

// ---------------------------------------------------------------------------
// The operations
// ---------------------------------------------------------------------------

fn smaller(a: usize, b: usize) -> (r: usize)
    ensures
        r == least(a as nat, b as nat),
{
    if a <= b {
        a
    } else {
        b
    }
}

fn saturating_less(a: usize, b: usize) -> (r: usize)
    ensures
        r == less(a as nat, b as nat),
{
    if a >= b {
        a - b
    } else {
        0
    }
}

/// `selected` moved down by `by` lines, but not below the last of `count`.
pub fn lower_by(selected: usize, by: usize, count: usize) -> (r: usize)
    requires
        count > 0,
    ensures
        r == lower(selected as nat, by as nat, count as nat),
{
    let last = count - 1;
    if selected >= last || last - selected <= by {
        last
    } else {
        selected + by
    }
}

fn best_places(list: &Vec<(i64, usize)>, n: usize) -> (r: Vec<usize>)
    ensures
        r@ == first_places(list@, n as nat),
{
    let mut out: Vec<usize> = Vec::new();
    let mut i: usize = 0;
    while i < list.len() && i < n
        invariant
            i <= list@.len(),
            i <= n,
            out@.len() == i,
            forall|k: int| 0 <= k < i ==> out@[k] == list@[k].1,
        decreases list@.len() - i,
    {
        out.push(list[i].1);
        i = i + 1;
    }
    assert(out@ =~= first_places(list@, n as nat));
    out
}

fn place_of_tab(tabs: &Vec<Tab>, tab: Tab) -> (r: Option<usize>)
    ensures
        match r {
            Some(i) => i < tabs@.len() && find_tab(tabs@, tab) == Some(i as nat),
            None => find_tab(tabs@, tab) is None,
        },
{
    let mut i: usize = 0;
    assert(tabs@.skip(0) =~= tabs@);
    while i < tabs.len()
        invariant
            i <= tabs@.len(),
            match find_tab(tabs@.skip(i as int), tab) {
                Some(k) => find_tab(tabs@, tab) == Some((i + k) as nat),
                None => find_tab(tabs@, tab) is None,
            },
        decreases tabs@.len() - i,
    {
        let ghost rest = tabs@.skip(i as int);
        assert(rest.drop_first() =~= tabs@.skip(i + 1));
        if tabs[i] == tab {
            return Some(i);
        }
        i = i + 1;
    }
    None
}

/// The place that was found is that of the tab.
pub proof fn lemma_find_tab(tabs: Seq<Tab>, tab: Tab)
    ensures
        match find_tab(tabs, tab) {
            Some(i) => i < tabs.len() && tabs[i as int] == tab && forall|j: int|
                0 <= j < i ==> tabs[j] != tab,
            None => !tabs.contains(tab),
        },
    decreases tabs.len(),
{
    if tabs.len() > 0 && tabs[0] != tab {
        let rest = tabs.drop_first();
        lemma_find_tab(rest, tab);
        match find_tab(rest, tab) {
            Some(i) => {
                assert forall|j: int| 0 <= j < i + 1 implies tabs[j] != tab by {
                    if j > 0 {
                        assert(rest[j - 1] != tab);
                    }
                }
            },
            None => {
                if tabs.contains(tab) {
                    let k = choose|k: int| 0 <= k < tabs.len() && tabs[k] == tab;
                    assert(rest[k - 1] == tab);
                }
            },
        }
    }
}

proof fn lemma_scrolled(v: AppView)
    ensures
        v.scrolled() == (AppView { scroll_start: v.scrolled().scroll_start, ..v }),
        v.selected < v.visible.len() && v.height > 0 ==> v.scrolled().in_view(),
        v.selected < v.visible.len() && v.height > 0 && v.in_view() ==> v.scrolled() == v,
{
}

proof fn lemma_ranked_in_range(
    entries: Seq<EntryView>,
    query: Seq<char>,
    tab: Tab,
    n: nat,
)
    requires
        entries.len() <= usize::MAX,
    ensures
        forall|k: int|
            0 <= k < first_places(
                ranked_entries(entries, stacked(entries), query, Some(tab)),
                n,
            ).len() ==> (#[trigger] first_places(
                ranked_entries(entries, stacked(entries), query, Some(tab)),
                n,
            )[k]) < entries.len(),
{
    let list = ranked_entries(entries, stacked(entries), query, Some(tab));
    law_ranked_entries(entries, stacked(entries), query, Some(tab));
    assert forall|k: int| 0 <= k < first_places(list, n).len() implies (#[trigger] first_places(
        list,
        n,
    )[k]) < entries.len() by {
        assert(list[k].1 < entries.len());
    }
}

fn fits_all(haystacks: &Vec<String>, query: &str) -> (r: bool)
    ensures
        r == forall|i: int|
            0 <= i < haystacks@.len() ==> matchable(query@, #[trigger] texts(haystacks@)[i]),
{
    let mut i: usize = 0;
    while i < haystacks.len()
        invariant
            i <= haystacks@.len(),
            forall|k: int| 0 <= k < i ==> matchable(query@, #[trigger] texts(haystacks@)[k]),
        decreases haystacks@.len() - i,
    {
        assert(texts(haystacks@)[i as int] == haystacks@[i as int]@);
        if !can_match(query, haystacks[i].as_str()) {
            return false;
        }
        i = i + 1;
    }
    true
}

fn fits_items(items: &Vec<ConfigItem>, query: &str) -> (r: bool)
    ensures
        r == forall|i: int|
            0 <= i < items@.len() ==> matchable(query@, #[trigger] item_views(items@)[i].haystack),
{
    let mut i: usize = 0;
    while i < items.len()
        invariant
            i <= items@.len(),
            forall|k: int|
                0 <= k < i ==> matchable(query@, #[trigger] item_views(items@)[k].haystack),
        decreases items@.len() - i,
    {
        assert(item_views(items@)[i as int] == items@[i as int]@);
        if !can_match(query, items[i].haystack.as_str()) {
            assert(!matchable(query@, item_views(items@)[i as int].haystack));
            return false;
        }
        i = i + 1;
    }
    true
}

/// Whether the entries of a refresh can be searched for the query.
pub fn rows_fit(rows: &Vec<Entry>, query: &str) -> (r: bool)
    ensures
        r == searchable(stacked(views(rows@)), query@),
{
    let haystacks = entry_haystacks(rows);
    fits_all(&haystacks, query)
}

impl AppState {
    /// The texts that are searched are those of the entries, what is shown are
    /// entries, and what is selected in a menu is one of its lines.
    pub open spec fn wf(&self) -> bool {
        &&& texts(self.haystacks@) == stacked(views(self.entries@))
        &&& self@.valid()
    }

    pub fn new(entries: Vec<Entry>, config: Config, runtime_config: RuntimeConfig) -> (r: Self)
        ensures
            r.wf(),
            r@ == initial_state(views(entries@), config@, runtime_config),
    {
        let haystacks = entry_haystacks(&entries);
        let config_items = build_config_items(&config);
        let ghost all = views(entries@);
        let ghost settings = config@;
        let mut app = AppState {
            entries,
            haystacks,
            config,
            config_items,
            runtime_config,
            visible: Vec::new(),
            query: String::new(),
            selected: 0,
            scroll_start: 0,
            result_viewport_height: 0,
            message: "Type to search.".to_string(),
            tab: Tab::History,
            config_tab_visible: true,
            cursor_visible: true,
            mode: AppMode::Normal,
            dirty: false,
        };
        assert(app.query@ =~= seq![]);
        assert(app.visible@ =~= seq![]);
        app.recompute();
        app
    }

    /// Whether the matcher can take the query and all that is searched.
    pub fn is_searchable(&self) -> (r: bool)
        requires
            self.wf(),
        ensures
            r == self@.searchable(),
    {
        let r = fits_all(&self.haystacks, self.query.as_str()) && fits_items(
            &self.config_items,
            self.query.as_str(),
        );
        proof {
            assert(texts(self.haystacks@).len() == self.haystacks@.len());
            assert(self@.items.len() == self.config_items@.len());
        }
        r
    }

    /// Goes back to an earlier query if the matcher cannot take the current one,
    /// and to the empty one if it cannot take that either.
    pub fn keep_searchable(&mut self, earlier: &str)
        requires
            old(self).wf(),
        ensures
            final(self).wf(),
            final(self)@.searchable(),
            final(self)@ == (if old(self)@.searchable() {
                old(self)@
            } else if old(self)@.with_query(earlier@).searchable() {
                old(self)@.with_query(earlier@)
            } else {
                old(self)@.with_query(seq![])
            }),
    {
        if self.is_searchable() {
            return ;
        }
        self.query = earlier.to_string();
        self.selected = 0;
        self.scroll_start = 0;
        self.dirty = true;
        if !self.is_searchable() {
            self.query = String::new();
            assert(self.query@ =~= seq![]);
        }
    }

    pub fn repo_menu_selected(&self) -> (r: usize)
        ensures
            r == (match self@.mode {
                ModeView::RepoMenu { selected } => selected,
                _ => 0,
            }),
    {
        match &self.mode {
            AppMode::RepoMenu { selected } => *selected,
            _ => 0,
        }
    }

    /// Lets the cursor blink: half a second after it last changed it appears or
    /// disappears. Tells whether it has.
    pub fn blink(&mut self, millis: u64) -> (r: bool)
        requires
            old(self).wf(),
        ensures
            final(self).wf(),
            r == (millis >= 500),
            final(self)@ == (AppView {
                cursor_visible: if millis >= 500 {
                    !old(self)@.cursor_visible
                } else {
                    old(self)@.cursor_visible
                },
                ..old(self)@
            }),
    {
        if millis >= 500 {
            self.cursor_visible = !self.cursor_visible;
            true
        } else {
            false
        }
    }

    /// Shows the cursor, as a key does.
    pub fn wake(&mut self)
        requires
            old(self).wf(),
        ensures
            final(self).wf(),
            final(self)@ == (AppView { cursor_visible: true, ..old(self)@ }),
    {
        self.cursor_visible = true;
    }

    /// Works out the results if the query has changed.
    pub fn flush_deferred_recompute(&mut self)
        requires
            old(self).wf(),
            old(self)@.dirty ==> old(self)@.tab_searchable(),
        ensures
            final(self).wf(),
            final(self)@ == old(self)@.flushed(),
    {
        if self.dirty {
            self.recompute();
            self.dirty = false;
        }
    }

    /// Works out the results.
    pub fn recompute(&mut self)
        requires
            old(self).wf(),
            old(self)@.tab_searchable(),
        ensures
            final(self).wf(),
            final(self)@ == old(self)@.recomputed(),
    {
        reveal(AppView::recomputed);
        self.ensure_current_tab_visible();
        let ghost s = self@;
        if self.tab == Tab::Config {
            let count = self.config_result_count();
            self.visible = Vec::new();
            self.selected = smaller(self.selected, saturating_less(count, 1));
            self.scroll_start = 0;
            assert(self.visible@ =~= seq![]);
            return ;
        }
        let n: usize = self.entries.len();
        proof {
            assert(texts(self.haystacks@).len() == self.haystacks@.len());
            assert(stacked(s.entries).len() == self.entries@.len());
        }
        let list = rank_entries(&self.entries, &self.haystacks, self.query.as_str(), self.tab);
        self.visible = best_places(&list, 300);
        proof {
            lemma_ranked_in_range(s.entries, s.query, s.tab, 300);
        }
        self.selected = smaller(self.selected, saturating_less(self.visible.len(), 1));
        self.clamp_scroll_start();
        self.ensure_selected_visible();
    }

    /// The entry that is selected.
    pub fn selected_entry(&self) -> (r: Option<&Entry>)
        ensures
            match r {
                Some(entry) => self@.selected_place() is Some && *entry
                    == self.entries@[self@.selected_place()->0 as int],
                None => self@.selected_place() is None,
            },
    {
        if self.selected < self.visible.len() {
            let place = self.visible[self.selected];
            if place < self.entries.len() {
                return Some(&self.entries[place]);
            }
        }
        None
    }

    /// The setting that is selected.
    pub fn selected_config_item_index(&self) -> (r: Option<usize>)
        requires
            items_searchable(self@.items, self@.query),
        ensures
            r == self@.selected_item(),
    {
        let rows = config_display_rows(&self.config_items, self.query.as_str());
        let ghost all = self@.config_rows();
        if self.selected < rows.len() {
            assert(all[self.selected as int] == rows@[self.selected as int]@);
            match &rows[self.selected] {
                ConfigDisplayRow::Group(_) => None,
                ConfigDisplayRow::Item(i) => Some(*i),
            }
        } else {
            None
        }
    }

    /// The tabs that are shown.
    pub fn visible_tabs(&self) -> (r: Vec<Tab>)
        ensures
            r@ == self@.tabs(),
    {
        let mut tabs: Vec<Tab> = Vec::new();
        if self.tab_enabled(Tab::History) {
            tabs.push(Tab::History);
        }
        if self.tab_enabled(Tab::GitHub) {
            tabs.push(Tab::GitHub);
        }
        if self.tab_enabled(Tab::GitLab) {
            tabs.push(Tab::GitLab);
        }
        if self.tab_enabled(Tab::DockerHub) {
            tabs.push(Tab::DockerHub);
        }
        if self.config_tab_visible {
            tabs.push(Tab::Config);
        }
        assert(tabs@ =~= self@.tabs());
        tabs
    }

    pub fn tab_enabled(&self, tab: Tab) -> (r: bool)
        ensures
            r == self@.tab_enabled(tab),
    {
        match tab {
            Tab::History => self.runtime_config.include_browser(),
            Tab::GitHub => self.runtime_config.include_github(),
            Tab::GitLab => self.runtime_config.include_gitlab(),
            Tab::DockerHub => self.runtime_config.include_dockerhub(),
            Tab::Config => self.config_tab_visible,
        }
    }

    /// The place of the current tab.
    pub fn selected_tab_index(&self) -> (r: usize)
        ensures
            r == self@.tab_index(),
    {
        let tabs = self.visible_tabs();
        match place_of_tab(&tabs, self.tab) {
            Some(i) => i,
            None => 0,
        }
    }

    /// Fits the window to a number of lines.
    pub fn set_result_viewport_height(&mut self, height: usize)
        requires
            old(self).wf(),
        ensures
            final(self).wf(),
            final(self)@ == old(self)@.in_window_of(height as nat),
    {
        self.result_viewport_height = height;
        self.clamp_scroll_start();
        self.ensure_selected_visible();
    }

    /// The lines of the window.
    pub fn visible_rows(&self) -> (r: Vec<usize>)
        ensures
            r@ == self@.window(),
    {
        let mut rows: Vec<usize> = Vec::new();
        if self.visible.len() == 0 || self.result_viewport_height == 0 {
            assert(rows@ =~= seq![]);
            return rows;
        }
        let n: usize = self.visible.len();
        let start = smaller(self.scroll_start, self.max_scroll_start());
        let end = if self.result_viewport_height >= n - start {
            n
        } else {
            start + self.result_viewport_height
        };
        let mut i: usize = start;
        while i < end
            invariant
                start <= i <= end <= self.visible@.len(),
                rows@ == self.visible@.subrange(start as int, i as int),
            decreases end - i,
        {
            rows.push(self.visible[i]);
            assert(rows@ =~= self.visible@.subrange(start as int, i + 1));
            i = i + 1;
        }
        rows
    }

    /// The place of the selected line in the window.
    pub fn selected_in_window(&self) -> (r: usize)
        ensures
            r == self@.window_place(),
    {
        if self.visible.len() == 0 || self.result_viewport_height == 0 {
            return 0;
        }
        saturating_less(self.selected, self.scroll_start)
    }

    fn max_scroll_start(&self) -> (r: usize)
        ensures
            r == self@.max_scroll(),
    {
        saturating_less(self.visible.len(), self.result_viewport_height)
    }

    fn clamp_scroll_start(&mut self)
        requires
            old(self).wf(),
        ensures
            final(self).wf(),
            final(self)@ == old(self)@.clamped(),
    {
        self.scroll_start = smaller(self.scroll_start, self.max_scroll_start());
    }

    /// Scrolls as far as the selected line needs. Where there are lines and a
    /// window, the line then stands in the window and the window in the list;
    /// if they did before, nothing changes.
    pub fn ensure_selected_visible(&mut self)
        requires
            old(self).wf(),
        ensures
            final(self).wf(),
            final(self)@ == old(self)@.scrolled(),
            final(self)@ == (AppView {
                scroll_start: final(self)@.scroll_start,
                ..old(self)@
            }),
            old(self)@.selected < old(self)@.visible.len() && old(self)@.height > 0 ==> {
                &&& final(self)@.in_view()
                &&& old(self)@.in_view() ==> final(self)@ == old(self)@
            },
    {
        self.scroll_to_selected();
        proof {
            lemma_scrolled(old(self)@);
        }
    }

    fn scroll_to_selected(&mut self)
        requires
            old(self).wf(),
        ensures
            final(self).wf(),
            final(self)@ == old(self)@.scrolled(),
    {
        if self.visible.len() == 0 || self.result_viewport_height == 0 {
            self.scroll_start = 0;
            return ;
        }
        if self.selected < self.scroll_start {
            self.scroll_start = self.selected;
        } else if self.selected - self.scroll_start >= self.result_viewport_height {
            self.scroll_start = self.selected - self.result_viewport_height + 1;
        }
        self.clamp_scroll_start();
    }

    /// Adds a character to the query.
    pub fn push_char(&mut self, ch: char)
        requires
            old(self).wf(),
        ensures
            final(self).wf(),
            final(self)@ == old(self)@.with_query(old(self)@.query.push(ch)),
    {
        self.query.push(ch);
        self.selected = 0;
        self.scroll_start = 0;
        self.dirty = true;
    }

    /// Deletes what looks like the last character of the query.
    pub fn backspace(&mut self)
        requires
            old(self).wf(),
        ensures
            final(self).wf(),
            final(self)@ == old(self)@.with_query(shorter(old(self)@.query)),
    {
        pop_grapheme(&mut self.query);
        self.selected = 0;
        self.scroll_start = 0;
        self.dirty = true;
    }

    pub fn move_up(&mut self)
        requires
            old(self).wf(),
        ensures
            final(self).wf(),
            final(self)@ == old(self)@.moved_up(),
    {
        if self.selected > 0 {
            self.selected = self.selected - 1;
            self.ensure_selected_visible();
        }
    }

    pub fn move_down(&mut self)
        requires
            old(self).wf(),
        ensures
            final(self).wf(),
            final(self)@ == old(self)@.moved_down(),
    {
        let n: usize = self.visible.len();
        if n > 0 && self.selected < n - 1 {
            self.selected = self.selected + 1;
            self.ensure_selected_visible();
        }
    }

    pub fn page_up(&mut self)
        requires
            old(self).wf(),
        ensures
            final(self).wf(),
            final(self)@ == old(self)@.paged_up(),
    {
        self.selected = saturating_less(self.selected, 10);
        self.ensure_selected_visible();
    }

    pub fn page_down(&mut self)
        requires
            old(self).wf(),
        ensures
            final(self).wf(),
            final(self)@ == old(self)@.paged_down(),
    {
        if self.visible.len() == 0 {
            return ;
        }
        self.selected = lower_by(self.selected, 10, self.visible.len());
        self.ensure_selected_visible();
    }

    /// The number of rows of the configuration tab.
    pub fn config_result_count(&self) -> (r: usize)
        requires
            items_searchable(self@.items, self@.query),
        ensures
            r == self@.config_rows().len(),
    {
        let rows = config_display_rows(&self.config_items, self.query.as_str());
        assert(row_views(rows@).len() == rows@.len());
        rows.len()
    }

    pub fn move_config_up(&mut self)
        requires
            old(self).wf(),
        ensures
            final(self).wf(),
            final(self)@ == old(self)@.config_moved_up(),
    {
        if self.selected > 0 {
            self.selected = self.selected - 1;
        }
    }

    pub fn move_config_down(&mut self)
        requires
            old(self).wf(),
            items_searchable(old(self)@.items, old(self)@.query),
        ensures
            final(self).wf(),
            final(self)@ == old(self)@.config_moved_down(),
    {
        let count = self.config_result_count();
        if count > 0 && self.selected < count - 1 {
            self.selected = self.selected + 1;
        }
    }

    pub fn page_config_up(&mut self)
        requires
            old(self).wf(),
        ensures
            final(self).wf(),
            final(self)@ == old(self)@.config_paged_up(),
    {
        self.selected = saturating_less(self.selected, 10);
    }

    pub fn page_config_down(&mut self)
        requires
            old(self).wf(),
            items_searchable(old(self)@.items, old(self)@.query),
        ensures
            final(self).wf(),
            final(self)@ == old(self)@.config_paged_down(),
    {
        let count = self.config_result_count();
        if count > 0 {
            self.selected = lower_by(self.selected, 10, count);
        }
    }

    /// Adds a character to the setting that is edited.
    pub fn push_config_edit_char(&mut self, ch: char)
        requires
            old(self).wf(),
        ensures
            final(self).wf(),
            final(self)@ == (match old(self)@.mode {
                ModeView::ConfigEdit { item_index, buffer } => AppView {
                    mode: ModeView::ConfigEdit { item_index, buffer: buffer.push(ch) },
                    ..old(self)@
                },
                _ => old(self)@,
            }),
    {
        if let AppMode::ConfigEdit { item_index, buffer } = &self.mode {
            let mut text = buffer.clone();
            text.push(ch);
            self.mode = AppMode::ConfigEdit { item_index: *item_index, buffer: text };
        }
    }

    /// Deletes what looks like the last character of the setting that is
    /// edited.
    pub fn pop_config_edit_char(&mut self)
        requires
            old(self).wf(),
        ensures
            final(self).wf(),
            final(self)@ == (match old(self)@.mode {
                ModeView::ConfigEdit { item_index, buffer } => AppView {
                    mode: ModeView::ConfigEdit { item_index, buffer: shorter(buffer) },
                    ..old(self)@
                },
                _ => old(self)@,
            }),
    {
        if let AppMode::ConfigEdit { item_index, buffer } = &self.mode {
            let mut text = buffer.clone();
            pop_grapheme(&mut text);
            self.mode = AppMode::ConfigEdit { item_index: *item_index, buffer: text };
        }
    }

    pub fn jump_top(&mut self)
        requires
            old(self).wf(),
        ensures
            final(self).wf(),
            final(self)@ == old(self)@.selecting(0),
    {
        self.selected = 0;
        self.ensure_selected_visible();
    }

    pub fn jump_bottom(&mut self)
        requires
            old(self).wf(),
        ensures
            final(self).wf(),
            final(self)@ == old(self)@.at_bottom(),
    {
        if self.visible.len() == 0 {
            return ;
        }
        self.selected = self.visible.len() - 1;
        self.ensure_selected_visible();
    }

    fn open_tab(&mut self, tab: Tab)
        requires
            old(self).wf(),
            old(self)@.searchable(),
        ensures
            final(self).wf(),
            final(self)@ == old(self)@.on_tab(tab),
    {
        self.tab = tab;
        self.selected = 0;
        self.scroll_start = 0;
        self.recompute();
    }

    pub fn next_tab(&mut self)
        requires
            old(self).wf(),
            old(self)@.searchable(),
        ensures
            final(self).wf(),
            final(self)@ == old(self)@.on_next_tab(),
    {
        let tabs = self.visible_tabs();
        if tabs.len() == 0 {
            return ;
        }
        let current = self.selected_tab_index();
        proof {
            lemma_find_tab(tabs@, self.tab);
        }
        if current < tabs.len() - 1 {
            self.open_tab(tabs[current + 1]);
        } else {
            self.open_tab(tabs[0]);
        }
    }

    pub fn previous_tab(&mut self)
        requires
            old(self).wf(),
            old(self)@.searchable(),
        ensures
            final(self).wf(),
            final(self)@ == old(self)@.on_previous_tab(),
    {
        let tabs = self.visible_tabs();
        if tabs.len() == 0 {
            return ;
        }
        let current = self.selected_tab_index();
        proof {
            lemma_find_tab(tabs@, self.tab);
        }
        if current > 0 {
            self.open_tab(tabs[current - 1]);
        } else {
            self.open_tab(tabs[tabs.len() - 1]);
        }
    }

    /// Shows and opens the configuration tab, or hides it.
    pub fn toggle_config_tab(&mut self)
        requires
            old(self).wf(),
            old(self)@.searchable(),
        ensures
            final(self).wf(),
            final(self)@ == old(self)@.config_tab_toggled(),
    {
        self.config_tab_visible = !self.config_tab_visible;
        self.mode = AppMode::Normal;
        if self.config_tab_visible {
            self.tab = Tab::Config;
            self.message = "Config tab shown.".to_string();
        } else {
            if self.tab == Tab::Config {
                self.tab = Tab::History;
            }
            self.message = "Config tab hidden.".to_string();
        }
        self.selected = 0;
        self.scroll_start = 0;
        self.ensure_current_tab_visible();
        self.recompute();
    }

    /// Switches a source on or off, in the configuration and at once.
    pub fn set_source_enabled(&mut self, level1: &str, enabled: bool)
        requires
            old(self).wf(),
        ensures
            final(self).wf(),
            final(self)@ == old(self)@.with_source(level1@, enabled),
    {
        switch_source(&mut self.config, &mut self.runtime_config, level1, enabled);
        self.ensure_current_tab_visible();
    }

    /// Leaves a tab that is not shown.
    pub fn ensure_current_tab_visible(&mut self)
        requires
            old(self).wf(),
        ensures
            final(self).wf(),
            final(self)@ == old(self)@.on_shown_tab(),
    {
        if self.tab_enabled(self.tab) {
            return ;
        }
        self.tab = if self.tab_enabled(Tab::History) {
            Tab::History
        } else if self.tab_enabled(Tab::GitHub) {
            Tab::GitHub
        } else if self.tab_enabled(Tab::GitLab) {
            Tab::GitLab
        } else if self.tab_enabled(Tab::DockerHub) {
            Tab::DockerHub
        } else {
            Tab::Config
        };
        self.selected = 0;
        self.scroll_start = 0;
    }

    /// Replaces all entries of some sources.
    pub fn replace_entries_for_sources(&mut self, sources: &Vec<String>, rows: Vec<Entry>)
        requires
            old(self).wf(),
            old(self)@.searchable(),
            searchable(stacked(views(rows@)), old(self)@.query),
        ensures
            final(self).wf(),
            final(self)@ == old(self)@.with_replaced(texts(sources@), views(rows@)),
            final(self).haystacks@.len() == final(self).entries@.len(),
            forall|i: int|
                0 <= i < final(self).entries@.len() ==> (#[trigger] final(self).haystacks@[i])@
                    == final(self).entries@[i]@.haystack(),
    {
        let mut merged = others(&self.entries, sources);
        let ghost before = self@;
        add_rows(&mut merged, &rows);
        self.entries = deduplicate(merged);
        self.haystacks = entry_haystacks(&self.entries);
        self.visible = Vec::new();
        proof {
            lemma_replaced_fits(before.entries, texts(sources@), views(rows@), before.query);
            reveal(AppView::recomputed);
        }
        self.recompute();
        proof {
            let all = texts(self.haystacks@);
            assert(all.len() == self.haystacks@.len());
            assert(stacked(views(self.entries@)).len() == self.entries@.len());
            assert forall|i: int| 0 <= i < self.entries@.len() implies (
            #[trigger] self.haystacks@[i])@ == self.entries@[i]@.haystack() by {
                assert(all[i] == self.haystacks@[i]@);
                assert(stacked(views(self.entries@))[i] == self.entries@[i]@.haystack());
            }
        }
    }

    /// Lists the settings anew.
    pub fn sync_config_items(&mut self)
        requires
            old(self).wf(),
        ensures
            final(self).wf(),
            final(self)@ == old(self)@.with_items(),
    {
        self.config_items = build_config_items(&self.config);
    }
}

fn switch_source(config: &mut Config, runtime: &mut RuntimeConfig, level1: &str, enabled: bool)
    ensures
        final(config)@ == config_with_source(old(config)@, level1@, enabled),
        *final(runtime) == switches_with_source(*old(runtime), level1@, enabled),
{
    if same(level1, "Browser") {
        config.include_browser = enabled;
        runtime.set_include_browser(enabled);
    } else if same(level1, "GitHub") {
        config.include_github = enabled;
        runtime.set_include_github(enabled);
    } else if same(level1, "GitLab") {
        config.include_gitlab = enabled;
        runtime.set_include_gitlab(enabled);
    } else if same(level1, "DockerHub") {
        config.include_dockerhub = enabled;
        runtime.set_include_dockerhub(enabled);
    }
}

proof fn lemma_replaced_fits(
    entries: Seq<EntryView>,
    sources: Seq<Seq<char>>,
    rows: Seq<EntryView>,
    query: Seq<char>,
)
    requires
        searchable(stacked(entries), query),
        searchable(stacked(rows), query),
    ensures
        searchable(stacked(replaced(entries, sources, rows)), query),
{
    let p = |e: EntryView| !sources.contains(e.source);
    let kept = entries.filter(p);
    let all = kept + rows;
    let out = deduplicated(all);
    law_deduplicated(all);
    assert forall|i: int| 0 <= i < stacked(out).len() implies matchable(
        query,
        #[trigger] stacked(out)[i],
    ) by {
        assert(stacked(out)[i] == out[i].haystack());
        assert(out[i].url.len() > 0 && all.contains(out[i]));
        let k = choose|k: int| 0 <= k < all.len() && all[k] == out[i];
        if k < kept.len() {
            assert(kept[k] == out[i]);
            assert(kept.contains(kept[k]));
            entries.lemma_filter_contains_rev(p, kept[k]);
            let j = choose|j: int| 0 <= j < entries.len() && entries[j] == kept[k];
            assert(matchable(query, stacked(entries)[j]));
        } else {
            assert(rows[k - kept.len()] == out[i]);
            assert(matchable(query, stacked(rows)[k - kept.len()]));
        }
    }
}

fn is_one_of(sources: &Vec<String>, source: &str) -> (r: bool)
    ensures
        r == texts(sources@).contains(source@),
{
    let ghost all = texts(sources@);
    let mut i: usize = 0;
    while i < sources.len()
        invariant
            all == texts(sources@),
            i <= sources@.len(),
            forall|k: int| 0 <= k < i ==> all[k] != source@,
        decreases sources@.len() - i,
    {
        assert(all[i as int] == sources@[i as int]@);
        if same(sources[i].as_str(), source) {
            return true;
        }
        i = i + 1;
    }
    false
}

/// The entries that are of none of the sources.
fn others(entries: &Vec<Entry>, sources: &Vec<String>) -> (r: Vec<Entry>)
    ensures
        views(r@) == views(entries@).filter(
            |e: EntryView| !texts(sources@).contains(e.source),
        ),
{
    let ghost all = views(entries@);
    let ghost p = |e: EntryView| !texts(sources@).contains(e.source);
    let mut out: Vec<Entry> = Vec::new();
    let mut i: usize = 0;
    assert(views(out@) =~= all.take(0).filter(p)) by {
        reveal(Seq::filter);
    }
    while i < entries.len()
        invariant
            all == views(entries@),
            p == (|e: EntryView| !texts(sources@).contains(e.source)),
            i <= entries@.len(),
            views(out@) == all.take(i as int).filter(p),
        decreases entries@.len() - i,
    {
        let ghost before = out@;
        proof {
            reveal(Seq::filter);
            let head = all.take(i + 1);
            assert(head.drop_last() =~= all.take(i as int));
            assert(head.last() == entries@[i as int]@);
        }
        if !is_one_of(sources, entries[i].source.as_str()) {
            out.push(entries[i].clone());
            assert(views(out@) =~= views(before).push(entries@[i as int]@));
        }
        i = i + 1;
    }
    assert(all.take(all.len() as int) =~= all);
    out
}

} // verus!
