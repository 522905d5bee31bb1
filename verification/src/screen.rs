//! What the screen shows, as texts in columns; drawing them is left to the
//! terminal.
use crate::actions::{docker_action_labels, docker_labels, image_name, item_label, label_of};
use crate::actions::{lemma_selected_item_in_range, repo_action_labels, repo_labels};
use crate::config_items::{item_views, ConfigEditKind, ConfigItem, ItemView};
use crate::config_rows::{config_display_rows, items_searchable, row_views};
use crate::config_rows::{ConfigDisplayRow, RowView};
use crate::layout::{columns, cut_to, display_width, filled, pad_or_truncate, truncate_to_width};
use crate::models::{views, Entry, EntryView};
use crate::repos::{described, dockerhub_entry_description, tags_marker};
use crate::state::{least, less, AppMode, AppState, AppView, ModeView};
use crate::tabs::{from_dockerhub, is_dockerhub_entry, shown_count, tab_count, Tab};
use crate::text::{copied_texts, decimal, decimal_of, glue, glue3, opt_text, same, texts};
use vstd::prelude::*;
use vstd::string::*;

verus! {

/// A colour of the terminal.
#[derive(Clone, Copy, Debug, PartialEq, Eq, Structural)]
pub enum Ink {
    White,
    Gray,
    Cyan,
    Blue,
    Green,
    Magenta,
    Yellow,
    Red,
}

/// The colour of a source.
pub open spec fn source_ink(source: Seq<char>) -> Ink {
    if source == "github"@ {
        Ink::Magenta
    } else if source == "gitlab"@ {
        Ink::Yellow
    } else if source == "bookmark"@ {
        Ink::Blue
    } else if source == "public"@ {
        Ink::Cyan
    } else if source == "private"@ {
        Ink::Red
    } else {
        Ink::Green
    }
}

pub fn source_color(source: &str) -> (r: Ink)
    ensures
        r == source_ink(source@),
{
    if same(source, "github") {
        Ink::Magenta
    } else if same(source, "gitlab") {
        Ink::Yellow
    } else if same(source, "bookmark") {
        Ink::Blue
    } else if same(source, "public") {
        Ink::Cyan
    } else if same(source, "private") {
        Ink::Red
    } else {
        Ink::Green
    }
}

/// What is shown of the detail of an entry: of an image its description.
pub open spec fn shown_detail(e: EntryView) -> Seq<char> {
    if from_dockerhub(e.source) {
        described(e.detail, tags_marker())
    } else {
        e.detail
    }
}

pub fn entry_detail(entry: &Entry) -> (r: &str)
    ensures
        r@ == shown_detail(entry@),
{
    if is_dockerhub_entry(entry) {
        dockerhub_entry_description(entry)
    } else {
        entry.detail.as_str()
    }
}

fn without(a: usize, b: usize) -> (r: usize)
    ensures
        r == less(a as nat, b as nat),
{
    if a >= b {
        a - b
    } else {
        0
    }
}

fn at_most(a: usize, b: usize) -> (r: usize)
    ensures
        r == least(a as nat, b as nat),
{
    if a <= b {
        a
    } else {
        b
    }
}

pub open spec fn between(n: nat, low: nat, high: nat) -> nat {
    if n < low {
        low
    } else if n > high {
        high
    } else {
        n
    }
}

fn clamp(n: usize, low: usize, high: usize) -> (r: usize)
    ensures
        r == between(n as nat, low as nat, high as nat),
{
    if n < low {
        low
    } else if n > high {
        high
    } else {
        n
    }
}

// ---------------------------------------------------------------------------
// Header
// ---------------------------------------------------------------------------

/// The label of a tab: its name, the number of its entries, its colour.
#[derive(Debug, PartialEq, Eq)]
pub struct TabLabel {
    pub name: String,
    pub count: String,
    pub ink: Ink,
}

pub open spec fn tab_ink(tab: Tab) -> Ink {
    match tab {
        Tab::History => Ink::Green,
        Tab::GitHub => Ink::Magenta,
        Tab::GitLab => Ink::Yellow,
        Tab::DockerHub => Ink::Blue,
        Tab::Config => Ink::Cyan,
    }
}

/// The label of a tab over some entries.
pub fn tab_label_for(tab: Tab, entries: &Vec<Entry>) -> (r: TabLabel)
    ensures
        r.name@ == tab.title(),
        r.count@ == "("@ + decimal(shown_count(views(entries@), tab)) + ")"@,
        r.ink == tab_ink(tab),
{
    let ink = match tab {
        Tab::History => Ink::Green,
        Tab::GitHub => Ink::Magenta,
        Tab::GitLab => Ink::Yellow,
        Tab::DockerHub => Ink::Blue,
        Tab::Config => Ink::Cyan,
    };
    let count = decimal_of(tab_count(entries, tab) as u64);
    TabLabel { name: tab.name().to_string(), count: glue3("(", count.as_str(), ")"), ink }
}

/// The text that tells how many results there are.
pub fn result_count(app: &AppState) -> (r: String)
    ensures
        r@ == decimal(app@.visible.len()) + " results"@,
{
    glue(decimal_of(app.visible.len() as u64).as_str(), " results")
}

// ---------------------------------------------------------------------------
// Search line
// ---------------------------------------------------------------------------

/// The column of the cursor in a search line that begins at `x` and is `width`
/// columns wide, frame included: behind the query, but inside the frame.
pub open spec fn cursor_at(x: nat, width: nat, query: nat) -> nat {
    least(
        least(x + 1, 65535) + least(query % 65536, less(width, 2)),
        65535,
    )
}

/// The column of the cursor behind a query of the given width.
pub fn cursor_column(x: u16, width: u16, query_width: usize) -> (r: u16)
    ensures
        r == cursor_at(x as nat, width as nat, query_width as nat),
{
    let shown: u16 = (query_width % 65536) as u16;
    let room: u16 = if width >= 2 {
        width - 2
    } else {
        0
    };
    let offset: u16 = if shown <= room {
        shown
    } else {
        room
    };
    let start: u16 = if x < 65535 {
        x + 1
    } else {
        65535
    };
    if offset > 65535 - start {
        65535
    } else {
        start + offset
    }
}

/// The column of the cursor in the search line.
pub fn search_cursor(app: &AppState, x: u16, width: u16) -> (r: u16)
    ensures
        r == cursor_at(x as nat, width as nat, columns(app@.query) as nat),
{
    cursor_column(x, width, display_width(app.query.as_str()))
}

// ---------------------------------------------------------------------------
// Results
// ---------------------------------------------------------------------------

/// A line of the results.
#[derive(Debug, PartialEq, Eq)]
pub struct ResultRow {
    pub name: String,
    pub kind: String,
    pub ink: Ink,
    pub detail: Option<String>,
    pub odd: bool,
}

/// What a line of the results holds.
pub struct ResultRowView {
    pub name: Seq<char>,
    pub kind: Seq<char>,
    pub ink: Ink,
    pub detail: Option<Seq<char>>,
    pub odd: bool,
}

impl View for ResultRow {
    type V = ResultRowView;

    open spec fn view(&self) -> ResultRowView {
        ResultRowView {
            name: self.name@,
            kind: self.kind@,
            ink: self.ink,
            detail: opt_text(self.detail),
            odd: self.odd,
        }
    }
}

pub open spec fn result_row_views(rows: Seq<ResultRow>) -> Seq<ResultRowView> {
    rows.map_values(|row: ResultRow| row@)
}

/// The columns inside a frame that is `width` wide, without the mark before
/// the selected line.
pub open spec fn inner_columns(width: nat) -> nat {
    less(width, 4)
}

/// Whether a tab shows no details.
pub open spec fn without_details(tab: Tab) -> bool {
    tab != Tab::Config
}

/// The widths of the columns for names and for details.
pub open spec fn result_widths(tab: Tab, width: nat) -> (nat, nat) {
    let inner = inner_columns(width);
    if without_details(tab) {
        (less(less(inner, 14), 2), 0)
    } else {
        let name = between(inner / 2, 10, 40);
        (name, less(less(less(inner, name), 14), 4))
    }
}

/// The widths of the columns for names and for details.
pub fn result_columns(tab: Tab, width: usize) -> (r: (usize, usize))
    ensures
        (r.0 as nat, r.1 as nat) == result_widths(tab, width as nat),
{
    let inner = without(width, 4);
    if tab != Tab::Config {
        (without(without(inner, 14), 2), 0)
    } else {
        let name = clamp(inner / 2, 10, 40);
        (name, without(without(without(inner, name), 14), 4))
    }
}

/// The line of an entry.
pub open spec fn result_row_of(e: EntryView, widths: (nat, nat), row: nat) -> ResultRowView {
    ResultRowView {
        name: filled(e.title, widths.0),
        kind: filled(e.source, 14),
        ink: source_ink(e.source),
        detail: if widths.1 == 0 {
            None
        } else {
            Some(cut_to(shown_detail(e), widths.1))
        },
        odd: row % 2 == 1,
    }
}

/// The line of an entry.
pub fn result_row(entry: &Entry, widths: (usize, usize), row: usize) -> (r: ResultRow)
    ensures
        r@ == result_row_of(entry@, (widths.0 as nat, widths.1 as nat), row as nat),
{
    let detail = if widths.1 == 0 {
        None
    } else {
        Some(truncate_to_width(entry_detail(entry), widths.1))
    };
    ResultRow {
        name: pad_or_truncate(entry.title.as_str(), widths.0),
        kind: pad_or_truncate(entry.source.as_str(), 14),
        ink: source_color(entry.source.as_str()),
        detail,
        odd: row % 2 == 1,
    }
}

/// What stands in the frame of the results.
#[derive(Debug, PartialEq, Eq)]
pub enum Results {
    /// There are no entries at all.
    Unloaded(&'static str),
    /// There is nothing to show for the query.
    Note(&'static str),
    /// Lines, and which of them is selected.
    Rows(Vec<ResultRow>, usize),
}

/// The lines of the results in a frame that is `width` wide.
pub open spec fn result_rows_of(v: AppView, width: nat) -> Seq<ResultRowView> {
    Seq::new(
        v.window().len(),
        |i: int|
            result_row_of(
                v.entries[v.window()[i] as int],
                result_widths(v.tab, width),
                i as nat,
            ),
    )
}

/// The results in a frame of the given size. The window is fitted to it.
pub fn results_screen(app: &mut AppState, width: usize, height: usize) -> (r: Results)
    requires
        old(app).wf(),
    ensures
        final(app).wf(),
        final(app)@ == (if old(app)@.entries.len() == 0 {
            old(app)@
        } else {
            old(app)@.in_window_of(less(height as nat, 2))
        }),
        match r {
            Results::Unloaded(text) => old(app)@.entries.len() == 0 && text@
                == "No entries loaded. Check browser data, GitHub/GitLab credentials, or network access."@,
            Results::Note(text) => old(app)@.entries.len() > 0 && final(app)@.window().len() == 0
                && text@ == (if old(app)@.query.len() == 0 {
                "Type to search."@
            } else {
                "No matches."@
            }),
            Results::Rows(rows, selected) => old(app)@.entries.len() > 0
                && final(app)@.window().len() > 0 && result_row_views(rows@) == result_rows_of(
                final(app)@,
                width as nat,
            ) && selected == final(app)@.window_place(),
        },
{
    assert(app@.entries.len() == app.entries@.len());
    if app.entries.len() == 0 {
        return Results::Unloaded(
            "No entries loaded. Check browser data, GitHub/GitLab credentials, or network access.",
        );
    }
    app.set_result_viewport_height(without(height, 2));
    let widths = result_columns(app.tab, width);
    let places = app.visible_rows();
    if places.len() == 0 {
        return Results::Note(
            if app.query.as_str().is_empty() {
                "Type to search."
            } else {
                "No matches."
            },
        );
    }
    let ghost v = app@;
    let ghost goal = result_rows_of(v, width as nat);
    let mut rows: Vec<ResultRow> = Vec::new();
    let mut i: usize = 0;
    while i < places.len()
        invariant
            app.wf(),
            app@ == v,
            places@ == v.window(),
            goal == result_rows_of(v, width as nat),
            (widths.0 as nat, widths.1 as nat) == result_widths(v.tab, width as nat),
            i <= places@.len(),
            rows@.len() == i,
            result_row_views(rows@) == goal.take(i as int),
        decreases places@.len() - i,
    {
        let place = places[i];
        proof {
            lemma_window_in_range(v, i as int);
            assert(v.entries[place as int] == app.entries@[place as int]@);
        }
        rows.push(result_row(&app.entries[place], widths, i));
        assert(result_row_views(rows@) =~= goal.take(i + 1));
        i = i + 1;
    }
    assert(goal.take(goal.len() as int) =~= goal);
    Results::Rows(rows, app.selected_in_window())
}

proof fn lemma_window_in_range(v: AppView, i: int)
    requires
        v.valid(),
        0 <= i < v.window().len(),
    ensures
        v.window()[i] < v.entries.len(),
{
    let start = least(v.scroll_start, v.max_scroll());
    assert(v.window()[i] == v.visible[start + i]);
}

// ---------------------------------------------------------------------------
// Preview
// ---------------------------------------------------------------------------

/// A line of the preview: what it tells, and that in its colour.
#[derive(Debug, PartialEq, Eq)]
pub struct PreviewLine {
    pub label: &'static str,
    pub value: String,
    pub ink: Ink,
}

/// What the preview tells of the selected entry, and in which colour.
pub open spec fn preview_of(v: AppView) -> Seq<(Seq<char>, Seq<char>, Ink)> {
    match v.selected_place() {
        None => seq![],
        Some(place) => {
            let e = v.entries[place as int];
            seq![
                ("Title"@, e.title, Ink::White),
                ("URL"@, e.url, Ink::Blue),
                ("Source"@, e.source, source_ink(e.source)),
                ("Detail"@, shown_detail(e), Ink::Gray),
            ]
        },
    }
}

/// The lines of the preview; none if nothing is selected.
pub fn preview_lines(app: &AppState) -> (r: Vec<PreviewLine>)
    ensures
        r@.len() == preview_of(app@).len(),
        forall|i: int|
            0 <= i < r@.len() ==> ((#[trigger] r@[i]).label@, r@[i].value@, r@[i].ink)
                == preview_of(app@)[i],
        match app@.selected_place() {
            None => r@.len() == 0,
            Some(place) => {
                let e = app@.entries[place as int];
                &&& r@.len() == 4
                &&& r@[0].label@ == "Title"@ && r@[0].value@ == e.title && r@[0].ink == Ink::White
                &&& r@[1].label@ == "URL"@ && r@[1].value@ == e.url && r@[1].ink == Ink::Blue
                &&& r@[2].label@ == "Source"@ && r@[2].value@ == e.source && r@[2].ink
                    == source_ink(e.source)
                &&& r@[3].label@ == "Detail"@ && r@[3].value@ == shown_detail(e) && r@[3].ink
                    == Ink::Gray
            },
        },
{
    match app.selected_entry() {
        None => Vec::new(),
        Some(entry) => {
            assert(app@.entries[app@.selected_place()->0 as int] == entry@);
            vec![
                PreviewLine { label: "Title", value: entry.title.clone(), ink: Ink::White },
                PreviewLine { label: "URL", value: entry.url.clone(), ink: Ink::Blue },
                PreviewLine {
                    label: "Source",
                    value: entry.source.clone(),
                    ink: source_color(entry.source.as_str()),
                },
                PreviewLine {
                    label: "Detail",
                    value: entry_detail(entry).to_string(),
                    ink: Ink::Gray,
                },
            ]
        },
    }
}

// ---------------------------------------------------------------------------
// Footer
// ---------------------------------------------------------------------------

/// The help for the keys.
pub open spec fn help_for(v: AppView) -> Seq<char> {
    match v.mode {
        ModeView::TagList { .. } => {
            "Up/Down=move  Ctrl+U/D=page  Enter=select  Backspace=back"@
        },
        ModeView::ActionMenu { .. } => {
            "Up/Down=move  Ctrl+U/D=page  Enter=confirm  Backspace=back"@
        },
        ModeView::RepoMenu { .. } => {
            "Up/Down=move  Ctrl+U/D=page  Enter=confirm  Backspace=back"@
        },
        ModeView::ConfigEdit { .. } => "Type=value  Enter=save  Esc=cancel  Backspace=delete"@,
        ModeView::Normal => if v.tab == Tab::Config {
            "Up/Down=select  Enter=edit/toggle  Type=filter  Ctrl+B=hide Config  Esc=quit"@
        } else if v.query.len() == 0 {
            "Enter=open  Ctrl+U/D=page  Ctrl+R=refresh tab  Ctrl+B=toggle Config  Esc=quit"@
        } else {
            "Type=fuzzy filter  Ctrl+U/D=page  Enter=open  Ctrl+B=toggle Config  Esc=quit"@
        },
    }
}

pub fn help_line(app: &AppState) -> (r: &'static str)
    ensures
        r@ == help_for(app@),
{
    match &app.mode {
        AppMode::TagList { .. } => "Up/Down=move  Ctrl+U/D=page  Enter=select  Backspace=back",
        AppMode::ActionMenu { .. } => {
            "Up/Down=move  Ctrl+U/D=page  Enter=confirm  Backspace=back"
        },
        AppMode::RepoMenu { .. } => {
            "Up/Down=move  Ctrl+U/D=page  Enter=confirm  Backspace=back"
        },
        AppMode::ConfigEdit { .. } => "Type=value  Enter=save  Esc=cancel  Backspace=delete",
        AppMode::Normal => if app.tab == Tab::Config {
            "Up/Down=select  Enter=edit/toggle  Type=filter  Ctrl+B=hide Config  Esc=quit"
        } else if app.query.as_str().is_empty() {
            "Enter=open  Ctrl+U/D=page  Ctrl+R=refresh tab  Ctrl+B=toggle Config  Esc=quit"
        } else {
            "Type=fuzzy filter  Ctrl+U/D=page  Enter=open  Ctrl+B=toggle Config  Esc=quit"
        },
    }
}

/// The message and the help in a footer that is `width` wide: the message
/// first, and the help in what it leaves.
pub fn footer(app: &AppState, width: usize) -> (r: (String, String))
    ensures
        r.0@ == cut_to(app@.message, less(width as nat, 2)),
        r.1@ == cut_to(
            help_for(app@),
            less(less(width as nat, 2), columns(r.0@) as nat + 2),
        ),
{
    let available = without(width, 2);
    let message = truncate_to_width(app.message.as_str(), available);
    let left = without(without(available, display_width(message.as_str())), 2);
    let help = truncate_to_width(help_line(app), left);
    (message, help)
}

// ---------------------------------------------------------------------------
// Menus
// ---------------------------------------------------------------------------

/// The first line of a list of tags that is shown.
pub open spec fn tags_start(count: nat, selected: nat, height: nat) -> nat {
    least(less(selected, 5), less(count, height))
}

/// The tags that are shown in a frame of the given height, and which of them
/// is selected.
pub fn tag_window(tags: &Vec<String>, selected: usize, height: usize) -> (r: (Vec<String>, usize))
    ensures
        ({
            let lines = less(height as nat, 2);
            let start = tags_start(tags@.len(), selected as nat, lines);
            &&& texts(r.0@) == texts(tags@).subrange(
                start as int,
                least(start + lines, tags@.len()) as int,
            )
            &&& r.1 == less(selected as nat, start)
        }),
{
    let lines = without(height, 2);
    let n: usize = tags.len();
    let start = at_most(without(selected, 5), without(n, lines));
    let end = if lines >= n - start {
        n
    } else {
        start + lines
    };
    let mut shown: Vec<String> = Vec::new();
    let mut i: usize = start;
    assert(texts(shown@) =~= texts(tags@).subrange(start as int, start as int));
    while i < end
        invariant
            start <= i <= end <= tags@.len(),
            shown@.len() == i - start,
            texts(shown@) == texts(tags@).subrange(start as int, i as int),
        decreases end - i,
    {
        shown.push(tags[i].clone());
        assert(texts(shown@) =~= texts(tags@).subrange(start as int, i + 1));
        i = i + 1;
    }
    (shown, without(selected, start))
}

/// In a frame with room for six tags or more, the selected tag is shown.
pub proof fn law_selected_tag_is_shown(count: nat, selected: nat, lines: nat)
    requires
        selected < count,
        lines >= 6,
    ensures
        tags_start(count, selected, lines) <= selected < least(
            tags_start(count, selected, lines) + lines,
            count,
        ),
{
}

/// The middle of the screen.
#[derive(Debug)]
pub enum Body {
    Blank,
    Tags { repo: String, tags: Vec<String>, selected: usize },
    Menu { title: String, labels: Vec<&'static str>, selected: usize },
    Config,
    Editor,
    Results,
    ResultsAndPreview,
}

pub enum BodyView {
    Blank,
    Tags { repo: Seq<char>, tags: Seq<Seq<char>>, selected: nat },
    Menu { title: Seq<char>, labels: Seq<&'static str>, selected: nat },
    Config,
    Editor,
    Results,
    ResultsAndPreview,
}

impl View for Body {
    type V = BodyView;

    open spec fn view(&self) -> BodyView {
        match self {
            Body::Blank => BodyView::Blank,
            Body::Tags { repo, tags, selected } => BodyView::Tags {
                repo: repo@,
                tags: texts(tags@),
                selected: *selected as nat,
            },
            Body::Menu { title, labels, selected } => BodyView::Menu {
                title: title@,
                labels: labels@,
                selected: *selected as nat,
            },
            Body::Config => BodyView::Config,
            Body::Editor => BodyView::Editor,
            Body::Results => BodyView::Results,
            Body::ResultsAndPreview => BodyView::ResultsAndPreview,
        }
    }
}

/// What stands in the middle of the screen.
pub open spec fn body_of(v: AppView) -> BodyView {
    match v.mode {
        ModeView::TagList { repo, tags, selected } => BodyView::Tags { repo, tags, selected },
        ModeView::ActionMenu { repo, tag, selected, .. } => match v.selected_place() {
            Some(_) => BodyView::Menu {
                title: "Action: "@ + image_name(repo, tag),
                labels: docker_labels(),
                selected,
            },
            None => BodyView::Blank,
        },
        ModeView::RepoMenu { selected } => match v.selected_place() {
            Some(place) => BodyView::Menu {
                title: "Action: "@ + v.entries[place as int].title,
                labels: repo_labels(),
                selected,
            },
            None => BodyView::Blank,
        },
        ModeView::ConfigEdit { .. } => BodyView::Editor,
        ModeView::Normal => if v.tab == Tab::Config {
            BodyView::Config
        } else if v.config.preview_enabled {
            BodyView::ResultsAndPreview
        } else {
            BodyView::Results
        },
    }
}

/// What stands in the middle of the screen.
pub fn screen_body(app: &AppState) -> (r: Body)
    ensures
        r@ == body_of(app@),
{
    match &app.mode {
        AppMode::TagList { repo, tags, selected } => Body::Tags {
            repo: repo.clone(),
            tags: copied_texts(tags),
            selected: *selected,
        },
        AppMode::ActionMenu { repo, tag, selected, .. } => {
            if app.selected_entry().is_none() {
                return Body::Blank;
            }
            let mut title = glue("Action: ", repo.as_str());
            if let Some(tag) = tag {
                title.append(":");
                title.append(tag.as_str());
            }
            assert(title@ =~= "Action: "@ + image_name(repo@, opt_text(*tag)));
            Body::Menu { title, labels: docker_action_labels(), selected: *selected }
        },
        AppMode::RepoMenu { .. } => match app.selected_entry() {
            Some(entry) => {
                assert(app@.entries[app@.selected_place()->0 as int] == entry@);
                Body::Menu {
                    title: glue("Action: ", entry.title.as_str()),
                    labels: repo_action_labels(entry.source.as_str()),
                    selected: app.repo_menu_selected(),
                }
            },
            None => Body::Blank,
        },
        AppMode::ConfigEdit { .. } => Body::Editor,
        AppMode::Normal => if app.tab == Tab::Config {
            Body::Config
        } else if app.config.preview_enabled {
            Body::ResultsAndPreview
        } else {
            Body::Results
        },
    }
}

// ---------------------------------------------------------------------------
// Settings
// ---------------------------------------------------------------------------

/// A row of the configuration tab, with its texts cut to their columns.
#[derive(Debug, PartialEq, Eq)]
pub enum SettingRow {
    Heading { text: String, note: &'static str, odd: bool },
    Setting { group: String, name: String, value: String, detail: String, odd: bool },
}

pub enum SettingRowView {
    Heading { text: Seq<char>, note: Seq<char>, odd: bool },
    Setting { group: Seq<char>, name: Seq<char>, value: Seq<char>, detail: Seq<char>, odd: bool },
}

impl View for SettingRow {
    type V = SettingRowView;

    open spec fn view(&self) -> SettingRowView {
        match self {
            SettingRow::Heading { text, note, odd } => SettingRowView::Heading {
                text: text@,
                note: note@,
                odd: *odd,
            },
            SettingRow::Setting { group, name, value, detail, odd } => SettingRowView::Setting {
                group: group@,
                name: name@,
                value: value@,
                detail: detail@,
                odd: *odd,
            },
        }
    }
}

pub open spec fn setting_row_views(rows: Seq<SettingRow>) -> Seq<SettingRowView> {
    rows.map_values(|row: SettingRow| row@)
}

/// The widths of the columns: group, name, value, detail.
pub open spec fn setting_widths(width: nat) -> (nat, nat, nat, nat) {
    let inner = less(width, 2);
    let group = between(inner / 7, 12, 18);
    let name = between(inner / 6, 10, 18);
    let value = between(inner / 7, 9, 18);
    (group, name, value, less(less(less(less(inner, group), name), value), 6))
}

/// The widths of the columns: group, name, value, detail.
pub fn setting_columns(width: usize) -> (r: (usize, usize, usize, usize))
    ensures
        (r.0 as nat, r.1 as nat, r.2 as nat, r.3 as nat) == setting_widths(width as nat),
{
    let inner = without(width, 2);
    let group = clamp(inner / 7, 12, 18);
    let name = clamp(inner / 6, 10, 18);
    let value = clamp(inner / 7, 9, 18);
    (group, name, value, without(without(without(without(inner, group), name), value), 6))
}

/// A row with its texts cut to their columns. Every other one is shaded.
pub open spec fn setting_row_of(
    items: Seq<ItemView>,
    row: RowView,
    widths: (nat, nat, nat, nat),
    odd: bool,
) -> SettingRowView {
    match row {
        RowView::Group(name) => SettingRowView::Heading {
            text: filled("▼ "@ + name, widths.0),
            note: "contains configurable items"@,
            odd,
        },
        RowView::Item(i) => SettingRowView::Setting {
            group: filled("    "@ + items[i as int].level2, widths.0),
            name: filled(items[i as int].level3, widths.1),
            value: filled(items[i as int].current, widths.2),
            detail: cut_to(items[i as int].detail, widths.3),
            odd,
        },
    }
}

/// The first row that is shown, of `count` in a window of `height` rows.
pub open spec fn settings_start(count: nat, selected: nat, height: nat) -> nat {
    least(less(selected, less(height, 1)), less(count, height))
}

/// The row that is selected, of `count`.
pub open spec fn settings_selected(count: nat, selected: nat) -> nat {
    least(selected, less(count, 1))
}

/// The rows that are shown.
pub open spec fn settings_window(rows: Seq<RowView>, selected: nat, height: nat) -> Seq<RowView> {
    let start = settings_start(rows.len(), settings_selected(rows.len(), selected), height);
    let lines = if height == 0 {
        1
    } else {
        height
    };
    rows.subrange(start as int, least(start + lines, rows.len()) as int)
}

/// The selected row is one of those that are shown.
pub proof fn law_selected_setting_is_shown(rows: Seq<RowView>, selected: nat, height: nat)
    requires
        rows.len() > 0,
    ensures
        ({
            let chosen = settings_selected(rows.len(), selected);
            let start = settings_start(rows.len(), chosen, height);
            &&& start <= chosen < rows.len()
            &&& chosen - start < settings_window(rows, selected, height).len()
            &&& settings_window(rows, selected, height)[chosen - start] == rows[chosen as int]
        }),
{
}

/// What stands in the frame of the configuration tab.
#[derive(Debug, PartialEq, Eq)]
pub enum Settings {
    /// There is nothing to show.
    Note(&'static str),
    /// Rows, and which of them is selected.
    Rows(Vec<SettingRow>, usize),
}

/// The rows in a frame that is `width` wide.
pub open spec fn setting_rows_of(v: AppView, width: nat, height: nat) -> Seq<SettingRowView> {
    settings_window(v.config_rows(), v.selected, less(height, 2)).map(
        |k: int, row: RowView| setting_row_of(v.items, row, setting_widths(width), k % 2 == 1),
    )
}

fn cut_row(
    row: &ConfigDisplayRow,
    items: &Vec<ConfigItem>,
    widths: (usize, usize, usize, usize),
    odd: bool,
) -> (r: SettingRow)
    requires
        row@ matches RowView::Item(i) ==> i < items@.len(),
    ensures
        r@ == setting_row_of(
            item_views(items@),
            row@,
            (widths.0 as nat, widths.1 as nat, widths.2 as nat, widths.3 as nat),
            odd,
        ),
{
    match row {
        ConfigDisplayRow::Group(name) => SettingRow::Heading {
            text: pad_or_truncate(glue("▼ ", name.as_str()).as_str(), widths.0),
            note: "contains configurable items",
            odd,
        },
        ConfigDisplayRow::Item(i) => {
            let item = &items[*i];
            assert(item_views(items@)[*i as int] == item@);
            SettingRow::Setting {
                group: pad_or_truncate(glue("    ", item.level2.as_str()).as_str(), widths.0),
                name: pad_or_truncate(item.level3.as_str(), widths.1),
                value: pad_or_truncate(item.current.as_str(), widths.2),
                detail: truncate_to_width(item.detail.as_str(), widths.3),
                odd,
            }
        },
    }
}

/// The configuration tab in a frame of the given size.
pub fn settings_screen(app: &AppState, width: usize, height: usize) -> (r: Settings)
    requires
        items_searchable(app@.items, app@.query),
    ensures
        match r {
            Settings::Note(text) => app@.config_rows().len() == 0 && text@ == (
            if app@.query.len() == 0 {
                "No config items."@
            } else {
                "No matching config items."@
            }),
            Settings::Rows(rows, selected) => app@.config_rows().len() > 0 && setting_row_views(
                rows@,
            ) == setting_rows_of(app@, width as nat, height as nat) && selected == less(
                settings_selected(app@.config_rows().len(), app@.selected),
                settings_start(
                    app@.config_rows().len(),
                    settings_selected(app@.config_rows().len(), app@.selected),
                    less(height as nat, 2),
                ),
            ),
        },
{
    let rows = config_display_rows(&app.config_items, app.query.as_str());
    let ghost all = app@.config_rows();
    assert(row_views(rows@).len() == rows@.len());
    if rows.len() == 0 {
        return Settings::Note(
            if app.query.as_str().is_empty() {
                "No config items."
            } else {
                "No matching config items."
            },
        );
    }
    let n: usize = rows.len();
    let count: usize = app.config_items.len();
    let widths = setting_columns(width);
    let lines = without(height, 2);
    let selected = at_most(app.selected, without(n, 1));
    let start = at_most(without(selected, without(lines, 1)), without(n, lines));
    let shown: usize = if lines == 0 {
        1
    } else {
        lines
    };
    let end = if shown >= n - start {
        n
    } else {
        start + shown
    };
    let ghost window = settings_window(all, app@.selected, lines as nat);
    let ghost goal = setting_rows_of(app@, width as nat, height as nat);
    proof {
        lemma_rows_in_range(app@);
    }
    let mut out: Vec<SettingRow> = Vec::new();
    let mut i: usize = start;
    assert(setting_row_views(out@) =~= goal.take(0));
    while i < end
        invariant
            start <= i <= end <= rows@.len(),
            all == app@.config_rows(),
            all == row_views(rows@),
            window == all.subrange(start as int, end as int),
            goal == window.map(
                |k: int, row: RowView|
                    setting_row_of(app@.items, row, setting_widths(width as nat), k % 2 == 1),
            ),
            (widths.0 as nat, widths.1 as nat, widths.2 as nat, widths.3 as nat) == setting_widths(
                width as nat,
            ),
            forall|k: int|
                0 <= k < all.len() ==> (#[trigger] all[k] matches RowView::Item(j) ==> j
                    < app@.items.len()),
            out@.len() == i - start,
            setting_row_views(out@) == goal.take(i - start),
        decreases end - i,
    {
        proof {
            assert(all[i as int] == rows@[i as int]@);
            assert(window[i - start] == all[i as int]);
            assert(app@.items.len() == app.config_items@.len());
        }
        out.push(cut_row(&rows[i], &app.config_items, widths, (i - start) % 2 == 1));
        assert(setting_row_views(out@) =~= goal.take(i + 1 - start));
        i = i + 1;
    }
    assert(goal.take(goal.len() as int) =~= goal);
    Settings::Rows(out, without(selected, start))
}

proof fn lemma_rows_in_range(v: AppView)
    requires
        v.items.len() <= usize::MAX,
    ensures
        forall|k: int|
            0 <= k < v.config_rows().len() ==> (#[trigger] v.config_rows()[k] matches RowView::Item(
                j,
            ) ==> j < v.items.len()),
{
    let rows = v.config_rows();
    assert forall|k: int| 0 <= k < rows.len() implies (#[trigger] rows[k] matches RowView::Item(
        j,
    ) ==> j < v.items.len()) by {
        lemma_selected_item_in_range(AppView { selected: k as nat, ..v });
    }
}

// ---------------------------------------------------------------------------
// Editor
// ---------------------------------------------------------------------------

/// The editor of a setting: which setting, and what has been typed; of a
/// secret only how much.
#[derive(Debug, PartialEq, Eq)]
pub struct Editor {
    pub path: String,
    pub value: String,
}

/// As many stars as a text has characters.
pub open spec fn masked(text: Seq<char>) -> Seq<char> {
    Seq::new(text.len(), |i: int| '*')
}

/// A masked text tells nothing but its length.
pub proof fn law_masks_are_alike(a: Seq<char>, b: Seq<char>)
    requires
        a.len() == b.len(),
    ensures
        masked(a) == masked(b),
{
    assert(masked(a) =~= masked(b));
}

fn mask(text: &str) -> (r: String)
    ensures
        r@ == masked(text@),
{
    let n = text.unicode_len();
    let mut out = String::new();
    let mut i: usize = 0;
    while i < n
        invariant
            n == text@.len(),
            i <= n,
            out@ == masked(text@).take(i as int),
        decreases n - i,
    {
        out.push('*');
        assert(out@ =~= masked(text@).take(i + 1));
        i = i + 1;
    }
    assert(out@ =~= masked(text@));
    out
}

/// What the editor shows: which setting is edited, and its value.
pub open spec fn editor_of(v: AppView) -> Option<(Seq<char>, Seq<char>)> {
    match v.mode {
        ModeView::ConfigEdit { item_index, buffer } => if item_index < v.items.len() {
            let item = v.items[item_index as int];
            Some(
                (
                    item_label(item),
                    if item.edit_kind == ConfigEditKind::Secret {
                        masked(buffer)
                    } else {
                        buffer
                    },
                ),
            )
        } else {
            None
        },
        _ => None,
    }
}

/// The editor, if a setting is edited.
pub fn config_editor(app: &AppState) -> (r: Option<Editor>)
    ensures
        match r {
            Some(editor) => editor_of(app@) == Some((editor.path@, editor.value@)),
            None => editor_of(app@) is None,
        },
        match app@.mode {
            ModeView::ConfigEdit { item_index, buffer } => if item_index < app@.items.len() {
                let item = app@.items[item_index as int];
                &&& r is Some
                &&& r->0.path@ == item_label(item)
                &&& r->0.value@ == (if item.edit_kind == ConfigEditKind::Secret {
                    masked(buffer)
                } else {
                    buffer
                })
            } else {
                r is None
            },
            _ => r is None,
        },
{
    assert(app@.items.len() == app.config_items@.len());
    match &app.mode {
        AppMode::ConfigEdit { item_index, buffer } => {
            if *item_index >= app.config_items.len() {
                return None;
            }
            let item = &app.config_items[*item_index];
            assert(app@.items[*item_index as int] == item@);
            let value = match item.edit_kind {
                ConfigEditKind::Secret => mask(buffer.as_str()),
                _ => buffer.clone(),
            };
            Some(Editor { path: label_of(item), value })
        },
        _ => None,
    }
}

/// The place of the editor on a screen that begins at `x` and `y`: in the
/// middle, seven lines high, and as wide as the screen within limits.
pub fn editor_place(x: u16, y: u16, width: u16, height: u16) -> (r: (u16, u16, u16, u16))
    requires
        x + less(width as nat, between(width as nat, 40, 90)) / 2 <= 65535,
        y + less(height as nat, 7) / 2 <= 65535,
    ensures
        r.2 == between(width as nat, 40, 90),
        r.3 == 7,
        r.0 == x + less(width as nat, r.2 as nat) / 2,
        r.1 == y + less(height as nat, 7) / 2,
{
    let w: u16 = if width < 40 {
        40
    } else if width > 90 {
        90
    } else {
        width
    };
    let left: u16 = if width >= w {
        (width - w) / 2
    } else {
        0
    };
    let top: u16 = if height >= 7 {
        (height - 7) / 2
    } else {
        0
    };
    (x + left, y + top, w, 7)
}

} // verus!
