//! What the actions of the user do to the state, and what they ask of the
//! world.
use crate::config::{interval_of, parse_refresh_interval, Config, ConfigView};
use crate::config_items::{ConfigEditKind, ConfigItem, ItemView};
use crate::config_rows::{found_items, items_searchable, law_rows_show_all_items, rows_items};
use crate::config_rows::{lemma_found_in_range, lemma_rows_items_hold};
use crate::input::InputKey;
use crate::layout::shorter;
use crate::keymap::{resolve_action, resolved, Action};
use crate::models::{views, Entry, EntryView};
use crate::rank::{searchable, stacked};
use crate::refresh::RefreshRequest;
use crate::repos::{dockerhub_entry_tags, tags_of};
use crate::state::{less, lower, lower_by, AppMode, AppState, AppView, ModeView};
use crate::state::{tab_after, tab_before};
use crate::state_laws::lemma_recomputed_keeps;
use crate::tabs::{from_dockerhub, is_dockerhub_entry, Tab};
use crate::text::{copied_texts, decimal, decimal_of, glue, glue3, opt_text, same, strip_prefix};
use crate::text::{first_of, first_place, lemma_first_of_is, strip_suffix, texts};
use crate::text::{trim, trim_end, trimmed, trimmed_end, without_prefix, Class};
use vstd::prelude::*;
use vstd::string::*;

verus! {

/// What an action asks of the world.
#[derive(Debug, PartialEq, Eq)]
pub enum Effect {
    Nothing,
    /// End the program.
    Quit,
    /// Refresh a source.
    Refresh(RefreshRequest),
    /// Open an address in the browser; if that works, `entry_opened` follows,
    /// and if it does not, the program ends with the error.
    Open { url: String, title: String },
    /// Open an address in the browser, whether that works or not.
    Browse(String),
    /// Put a text on the clipboard.
    Copy(String),
    /// Give the changed configuration to all parts of the running program. It
    /// is not stored. `config_shared` follows.
    ShareConfig { label: String, editing: bool },
}

/// What an effect holds.
pub enum EffectView {
    Nothing,
    Quit,
    Refresh(RefreshRequest),
    Open { url: Seq<char>, title: Seq<char> },
    Browse(Seq<char>),
    Copy(Seq<char>),
    ShareConfig { label: Seq<char>, editing: bool },
}

impl View for Effect {
    type V = EffectView;

    open spec fn view(&self) -> EffectView {
        match self {
            Effect::Nothing => EffectView::Nothing,
            Effect::Quit => EffectView::Quit,
            Effect::Refresh(request) => EffectView::Refresh(*request),
            Effect::Open { url, title } => EffectView::Open { url: url@, title: title@ },
            Effect::Browse(url) => EffectView::Browse(url@),
            Effect::Copy(text) => EffectView::Copy(text@),
            Effect::ShareConfig { label, editing } => EffectView::ShareConfig {
                label: label@,
                editing: *editing,
            },
        }
    }
}

impl AppView {
    pub open spec fn telling(self, message: Seq<char>) -> AppView {
        AppView { message, ..self }
    }

    pub open spec fn in_mode(self, mode: ModeView) -> AppView {
        AppView { mode, ..self }
    }
}

impl AppState {
    fn tell(&mut self, message: String)
        requires
            old(self).wf(),
        ensures
            final(self).wf(),
            final(self)@ == old(self)@.telling(message@),
    {
        self.message = message;
    }

    fn enter(&mut self, mode: AppMode)
        requires
            old(self).wf(),
            mode@.valid(),
        ensures
            final(self).wf(),
            final(self)@ == old(self)@.in_mode(mode@),
    {
        self.mode = mode;
    }
}

// ---------------------------------------------------------------------------
// Opening an entry
// ---------------------------------------------------------------------------

/// What opening an entry does: a repository or an image gets a menu, anything
/// else is opened.
pub open spec fn entry_chosen(v: AppView, entry: EntryView) -> (AppView, EffectView) {
    if entry.source == "github"@ || entry.source == "gitlab"@ {
        (v.in_mode(ModeView::RepoMenu { selected: 0 }), EffectView::Nothing)
    } else if from_dockerhub(entry.source) {
        let tags = tags_of(entry.detail);
        if tags.len() == 0 {
            (
                v.in_mode(
                    ModeView::ActionMenu { repo: entry.title, tag: None, tags, selected: 0 },
                ),
                EffectView::Nothing,
            )
        } else {
            (
                v.in_mode(ModeView::TagList { repo: entry.title, tags, selected: 0 }),
                EffectView::Nothing,
            )
        }
    } else {
        (v, EffectView::Open { url: entry.url, title: entry.title })
    }
}

/// What opening the selected entry does.
pub open spec fn selection_opened(v: AppView) -> (AppView, EffectView) {
    match v.selected_place() {
        Some(place) => entry_chosen(v, v.entries[place as int]),
        None => (v, EffectView::Nothing),
    }
}

/// Opens the selected entry, or the menu that it has.
pub fn open_selected_entry(app: &mut AppState) -> (r: Effect)
    requires
        old(app).wf(),
    ensures
        final(app).wf(),
        (final(app)@, r@) == selection_opened(old(app)@),
{
    let entry = match app.selected_entry() {
        Some(entry) => entry.clone(),
        None => return Effect::Nothing,
    };
    assert(app@.entries[app@.selected_place()->0 as int] == entry@);
    if same(entry.source.as_str(), "github") || same(entry.source.as_str(), "gitlab") {
        app.enter(AppMode::RepoMenu { selected: 0 });
        return Effect::Nothing;
    }
    if is_dockerhub_entry(&entry) {
        let tags = dockerhub_entry_tags(&entry);
        assert(texts(tags@).len() == tags@.len());
        let repo = entry.title;
        if tags.len() == 0 {
            app.enter(AppMode::ActionMenu { repo, tag: None, tags, selected: 0 });
        } else {
            app.enter(AppMode::TagList { repo, tags, selected: 0 });
        }
        return Effect::Nothing;
    }
    Effect::Open { url: entry.url, title: entry.title }
}

/// Tells that an entry has been opened.
pub fn entry_opened(app: &mut AppState, title: &str)
    requires
        old(app).wf(),
    ensures
        final(app).wf(),
        final(app)@ == old(app)@.telling("Opened "@ + title@),
{
    app.tell(glue("Opened ", title));
}

// ---------------------------------------------------------------------------
// Changing a setting
// ---------------------------------------------------------------------------

/// The headings of a setting in one line.
pub open spec fn item_label(item: ItemView) -> Seq<char> {
    item.level1 + " / "@ + item.level2 + " / "@ + item.level3
}

pub fn label_of(item: &ConfigItem) -> (r: String)
    ensures
        r@ == item_label(item@),
{
    let mut label = glue3(item.level1.as_str(), " / ", item.level2.as_str());
    label.append(" / ");
    label.append(item.level3.as_str());
    label
}

pub open spec fn is_item(item: ItemView, level1: Seq<char>, level2: Seq<char>, level3: Seq<char>) -> bool {
    item.level1 == level1 && item.level2 == level2 && item.level3 == level3
}

fn is_at(item: &ConfigItem, level1: &str, level2: &str, level3: &str) -> (r: bool)
    ensures
        r == is_item(item@, level1@, level2@, level3@),
{
    same(item.level1.as_str(), level1) && same(item.level2.as_str(), level2) && same(
        item.level3.as_str(),
        level3,
    )
}

/// Whether a setting switches a source.
pub open spec fn is_source_switch(item: ItemView) -> bool {
    ||| is_item(item, "Browser"@, "Source"@, "Enabled"@)
    ||| is_item(item, "GitHub"@, "Source"@, "Enabled"@)
    ||| is_item(item, "GitLab"@, "Source"@, "Enabled"@)
    ||| is_item(item, "DockerHub"@, "Source"@, "Enabled"@)
}

/// The state with a setting switched, and the settings listed anew.
pub open spec fn item_toggled(v: AppView, item: ItemView, enabled: bool) -> AppView {
    if is_source_switch(item) {
        v.with_source(item.level1, enabled).with_items()
    } else if is_item(item, "System"@, "Display"@, "Preview pane"@) {
        AppView {
            config: ConfigView { preview_enabled: enabled, ..v.config },
            ..v
        }.with_items()
    } else if is_item(item, "System"@, "Diagnostics"@, "Debug logging"@) {
        AppView { config: ConfigView { debug: enabled, ..v.config }, ..v }.with_items()
    } else {
        v.with_items()
    }
}

/// What editing a setting does: a switch is switched at once, a text or a
/// secret is edited.
pub open spec fn item_edited(v: AppView, index: nat, item: ItemView) -> (AppView, EffectView) {
    match item.edit_kind {
        ConfigEditKind::Toggle => (
            item_toggled(v, item, item.current != "enabled"@),
            EffectView::ShareConfig { label: item_label(item), editing: false },
        ),
        ConfigEditKind::Text => (
            v.in_mode(
                ModeView::ConfigEdit {
                    item_index: index,
                    buffer: if item.current == "not set"@ {
                        seq![]
                    } else {
                        item.current
                    },
                },
            ),
            EffectView::Nothing,
        ),
        ConfigEditKind::Secret => (
            v.in_mode(ModeView::ConfigEdit { item_index: index, buffer: seq![] }).telling(
                "Enter a token value; it will only be shown as present."@,
            ),
            EffectView::Nothing,
        ),
        ConfigEditKind::ReadOnly => (
            v.telling("This config item is informational."@),
            EffectView::Nothing,
        ),
    }
}

/// What editing the selected setting does.
pub open spec fn edit_started(v: AppView) -> (AppView, EffectView) {
    match v.selected_item() {
        Some(i) => item_edited(v, i as nat, v.items[i as int]),
        None => (v.telling("Select an indented config item to edit."@), EffectView::Nothing),
    }
}

fn apply_config_toggle(app: &mut AppState, item: &ConfigItem, enabled: bool)
    requires
        old(app).wf(),
    ensures
        final(app).wf(),
        final(app)@ == item_toggled(old(app)@, item@, enabled),
{
    if is_at(item, "Browser", "Source", "Enabled") || is_at(item, "GitHub", "Source", "Enabled")
        || is_at(item, "GitLab", "Source", "Enabled") || is_at(
        item,
        "DockerHub",
        "Source",
        "Enabled",
    ) {
        app.set_source_enabled(item.level1.as_str(), enabled);
    } else if is_at(item, "System", "Display", "Preview pane") {
        app.config.preview_enabled = enabled;
    } else if is_at(item, "System", "Diagnostics", "Debug logging") {
        app.config.debug = enabled;
    }
    app.sync_config_items();
}

/// A row that shows a setting shows one of the list.
pub proof fn lemma_selected_item_in_range(v: AppView)
    requires
        v.items.len() <= usize::MAX,
    ensures
        v.selected_item() matches Some(i) ==> i < v.items.len(),
{
    let order = found_items(v.items, v.query);
    lemma_found_in_range(v.items, v.query);
    if let Some(i) = v.selected_item() {
        let rows = v.config_rows();
        law_rows_show_all_items(v.items, order);
        assert(rows.contains(rows[v.selected as int]));
        lemma_rows_items_hold(rows, v.selected as int);
        broadcast use vstd::seq_lib::group_to_multiset_ensures;

        let shown = rows_items(rows);
        assert(shown.contains(i));
        assert(shown.to_multiset().count(i) > 0);
        assert(order.contains(i));
        let k = choose|k: int| 0 <= k < order.len() && order[k] == i;
        assert(order[k] < v.items.len());
    }
}

/// Starts editing the selected setting.
pub fn start_config_edit(app: &mut AppState) -> (r: Effect)
    requires
        old(app).wf(),
        items_searchable(old(app)@.items, old(app)@.query),
    ensures
        final(app).wf(),
        (final(app)@, r@) == edit_started(old(app)@),
{
    let n: usize = app.config_items.len();
    let index = match app.selected_config_item_index() {
        Some(index) => index,
        None => {
            app.tell("Select an indented config item to edit.".to_string());
            return Effect::Nothing;
        },
    };
    proof {
        assert(app@.items.len() == app.config_items@.len());
        lemma_selected_item_in_range(app@);
    }
    let item = copy_item(&app.config_items[index]);
    assert(app@.items[index as int] == item@);
    edit_item(app, index, item)
}

fn edit_item(app: &mut AppState, index: usize, item: ConfigItem) -> (r: Effect)
    requires
        old(app).wf(),
    ensures
        final(app).wf(),
        (final(app)@, r@) == item_edited(old(app)@, index as nat, item@),
{
    match item.edit_kind {
        ConfigEditKind::Toggle => {
            let enabled = !same(item.current.as_str(), "enabled");
            apply_config_toggle(app, &item, enabled);
            Effect::ShareConfig { label: label_of(&item), editing: false }
        },
        ConfigEditKind::Text => {
            let buffer = if same(item.current.as_str(), "not set") {
                let none = String::new();
                assert(none@ =~= seq![]);
                none
            } else {
                item.current
            };
            app.enter(AppMode::ConfigEdit { item_index: index, buffer });
            Effect::Nothing
        },
        ConfigEditKind::Secret => {
            let buffer = String::new();
            assert(buffer@ =~= seq![]);
            app.enter(AppMode::ConfigEdit { item_index: index, buffer });
            app.tell("Enter a token value; it will only be shown as present.".to_string());
            Effect::Nothing
        },
        ConfigEditKind::ReadOnly => {
            app.tell("This config item is informational.".to_string());
            Effect::Nothing
        },
    }
}

fn copy_item(item: &ConfigItem) -> (r: ConfigItem)
    ensures
        r@ == item@,
{
    ConfigItem {
        level1: item.level1.clone(),
        level2: item.level2.clone(),
        level3: item.level3.clone(),
        current: item.current.clone(),
        detail: item.detail.clone(),
        haystack: item.haystack.clone(),
        edit_kind: item.edit_kind,
    }
}

/// A value without the white space around it; none if nothing is left.
pub open spec fn optional_config(value: Seq<char>) -> Option<Seq<char>> {
    if trim(value, Class::Space).len() == 0 {
        None
    } else {
        Some(trim(value, Class::Space))
    }
}

fn optional_config_value(value: &str) -> (r: Option<String>)
    ensures
        opt_text(r) == optional_config(value@),
{
    let value = trimmed(value, Class::Space);
    if value.as_str().is_empty() {
        None
    } else {
        Some(value)
    }
}

/// A configuration with a new value for a setting, or why the value is
/// refused.
pub open spec fn item_set(config: ConfigView, item: ItemView, value: Seq<char>) -> Result<
    ConfigView,
    Seq<char>,
> {
    if is_item(item, "GitHub"@, "Auth"@, "Token"@) {
        Ok(ConfigView { github_token: optional_config(value), ..config })
    } else if is_item(item, "GitHub"@, "Auth"@, "User"@) {
        Ok(ConfigView { github_user: optional_config(value), ..config })
    } else if is_item(item, "GitLab"@, "Auth"@, "Token"@) {
        Ok(ConfigView { gitlab_token: optional_config(value), ..config })
    } else if is_item(item, "DockerHub"@, "Auth"@, "Token"@) {
        Ok(ConfigView { dockerhub_token: optional_config(value), ..config })
    } else if is_item(item, "DockerHub"@, "Auth"@, "Username"@) {
        Ok(ConfigView { dockerhub_username: optional_config(value), ..config })
    } else if is_item(item, "GitHub"@, "API"@, "Base URL"@) {
        Ok(ConfigView { github_api: trim(value, Class::Space), ..config })
    } else if is_item(item, "GitLab"@, "API"@, "Base URL"@) {
        Ok(ConfigView { gitlab_api: trim(value, Class::Space), ..config })
    } else if is_item(item, "Browser"@, "Refresh"@, "Interval"@) {
        match interval_of(value) {
            Some(n) => Ok(ConfigView { history_refresh_interval: n, ..config }),
            None => Err("Invalid browser refresh interval."@),
        }
    } else if is_item(item, "GitHub"@, "Refresh"@, "Interval"@) {
        match interval_of(value) {
            Some(n) => Ok(ConfigView { github_refresh_interval: n, ..config }),
            None => Err("Invalid GitHub refresh interval."@),
        }
    } else if is_item(item, "GitLab"@, "Refresh"@, "Interval"@) {
        match interval_of(value) {
            Some(n) => Ok(ConfigView { gitlab_refresh_interval: n, ..config }),
            None => Err("Invalid GitLab refresh interval."@),
        }
    } else if is_item(item, "DockerHub"@, "Refresh"@, "Interval"@) {
        match interval_of(value) {
            Some(n) => Ok(ConfigView { dockerhub_refresh_interval: n, ..config }),
            None => Err("Invalid DockerHub refresh interval."@),
        }
    } else {
        Ok(config)
    }
}

fn apply_config_value(config: &mut Config, item: &ConfigItem, value: &str) -> (r: Result<(), String>)
    ensures
        match r {
            Ok(_) => item_set(old(config)@, item@, value@) == Ok::<ConfigView, Seq<char>>(
                final(config)@,
            ),
            Err(err) => item_set(old(config)@, item@, value@) == Err::<ConfigView, Seq<char>>(err@)
                && final(config)@ == old(config)@,
        },
{
    if is_at(item, "GitHub", "Auth", "Token") {
        config.github_token = optional_config_value(value);
    } else if is_at(item, "GitHub", "Auth", "User") {
        config.github_user = optional_config_value(value);
    } else if is_at(item, "GitLab", "Auth", "Token") {
        config.gitlab_token = optional_config_value(value);
    } else if is_at(item, "DockerHub", "Auth", "Token") {
        config.dockerhub_token = optional_config_value(value);
    } else if is_at(item, "DockerHub", "Auth", "Username") {
        config.dockerhub_username = optional_config_value(value);
    } else if is_at(item, "GitHub", "API", "Base URL") {
        config.github_api = trimmed(value, Class::Space);
    } else if is_at(item, "GitLab", "API", "Base URL") {
        config.gitlab_api = trimmed(value, Class::Space);
    } else {
        return apply_interval(config, item, value);
    }
    Ok(())
}

fn apply_interval(config: &mut Config, item: &ConfigItem, value: &str) -> (r: Result<(), String>)
    requires
        !is_item(item@, "GitHub"@, "Auth"@, "Token"@),
        !is_item(item@, "GitHub"@, "Auth"@, "User"@),
        !is_item(item@, "GitLab"@, "Auth"@, "Token"@),
        !is_item(item@, "DockerHub"@, "Auth"@, "Token"@),
        !is_item(item@, "DockerHub"@, "Auth"@, "Username"@),
        !is_item(item@, "GitHub"@, "API"@, "Base URL"@),
        !is_item(item@, "GitLab"@, "API"@, "Base URL"@),
    ensures
        match r {
            Ok(_) => item_set(old(config)@, item@, value@) == Ok::<ConfigView, Seq<char>>(
                final(config)@,
            ),
            Err(err) => item_set(old(config)@, item@, value@) == Err::<ConfigView, Seq<char>>(err@)
                && final(config)@ == old(config)@,
        },
{
    if is_at(item, "Browser", "Refresh", "Interval") {
        match parse_refresh_interval(value) {
            Some(n) => config.history_refresh_interval = n,
            None => return Err("Invalid browser refresh interval.".to_string()),
        }
    } else if is_at(item, "GitHub", "Refresh", "Interval") {
        match parse_refresh_interval(value) {
            Some(n) => config.github_refresh_interval = n,
            None => return Err("Invalid GitHub refresh interval.".to_string()),
        }
    } else if is_at(item, "GitLab", "Refresh", "Interval") {
        match parse_refresh_interval(value) {
            Some(n) => config.gitlab_refresh_interval = n,
            None => return Err("Invalid GitLab refresh interval.".to_string()),
        }
    } else if is_at(item, "DockerHub", "Refresh", "Interval") {
        match parse_refresh_interval(value) {
            Some(n) => config.dockerhub_refresh_interval = n,
            None => return Err("Invalid DockerHub refresh interval.".to_string()),
        }
    }
    Ok(())
}

/// What the state becomes when a setting has been changed.
pub open spec fn updated(v: AppView, label: Seq<char>) -> AppView {
    v.telling("Updated "@ + label + "."@)
}

/// What accepting an edited setting does: it changes the configuration of the
/// running program. A value that is refused leaves everything as it is but
/// for the message.
pub open spec fn edit_committed(v: AppView) -> (AppView, EffectView) {
    match v.mode {
        ModeView::ConfigEdit { item_index, buffer } => if item_index >= v.items.len() {
            (v.in_mode(ModeView::Normal), EffectView::Nothing)
        } else {
            let item = v.items[item_index as int];
            match item.edit_kind {
                ConfigEditKind::Toggle | ConfigEditKind::ReadOnly => (
                    updated(v, item_label(item)).in_mode(ModeView::Normal),
                    EffectView::Nothing,
                ),
                _ => match item_set(v.config, item, trim(buffer, Class::Space)) {
                    Err(err) => (v.telling(err), EffectView::Nothing),
                    Ok(config) => (
                        AppView { config, ..v }.with_items(),
                        EffectView::ShareConfig { label: item_label(item), editing: true },
                    ),
                },
            }
        },
        _ => (v, EffectView::Nothing),
    }
}

/// Accepts the setting that is edited.
pub fn commit_config_edit(app: &mut AppState) -> (r: Effect)
    requires
        old(app).wf(),
    ensures
        final(app).wf(),
        (final(app)@, r@) == edit_committed(old(app)@),
{
    let (index, value) = match &app.mode {
        AppMode::ConfigEdit { item_index, buffer } => (
            *item_index,
            trimmed(buffer.as_str(), Class::Space),
        ),
        _ => return Effect::Nothing,
    };
    assert(app@.items.len() == app.config_items@.len());
    if index >= app.config_items.len() {
        app.enter(AppMode::Normal);
        return Effect::Nothing;
    }
    let item = copy_item(&app.config_items[index]);
    assert(app@.items[index as int] == item@);
    let label = label_of(&item);
    let applies = match item.edit_kind {
        ConfigEditKind::Text => true,
        ConfigEditKind::Secret => true,
        _ => false,
    };
    if !applies {
        app.tell(glue3("Updated ", label.as_str(), "."));
        app.enter(AppMode::Normal);
        return Effect::Nothing;
    }
    match apply_config_value(&mut app.config, &item, value.as_str()) {
        Ok(_) => {
            app.sync_config_items();
            Effect::ShareConfig { label, editing: true }
        },
        Err(err) => {
            app.tell(err);
            Effect::Nothing
        },
    }
}

/// The state after a changed configuration has been shared: a setting that was
/// edited is closed, and for a switch the results are worked out anew.
pub open spec fn after_sharing(v: AppView, label: Seq<char>, editing: bool) -> AppView {
    if editing {
        updated(v, label).in_mode(ModeView::Normal)
    } else {
        updated(v, label).recomputed()
    }
}

/// Goes on after a changed configuration has been shared.
pub fn config_shared(app: &mut AppState, label: &str, editing: bool)
    requires
        old(app).wf(),
        !editing ==> old(app)@.tab_searchable(),
    ensures
        final(app).wf(),
        final(app)@ == after_sharing(old(app)@, label@, editing),
{
    app.tell(glue3("Updated ", label, "."));
    if editing {
        app.enter(AppMode::Normal);
    } else {
        app.recompute();
    }
}

/// Gives up editing a setting.
pub fn cancel_config_edit(app: &mut AppState)
    requires
        old(app).wf(),
    ensures
        final(app).wf(),
        final(app)@ == old(app)@.in_mode(ModeView::Normal).telling("Config edit cancelled."@),
{
    app.enter(AppMode::Normal);
    app.tell("Config edit cancelled.".to_string());
}

// ---------------------------------------------------------------------------
// Moving in lists and menus
// ---------------------------------------------------------------------------

/// The lines of the menu of an image.
pub open spec fn docker_labels() -> Seq<&'static str> {
    seq!["Open in browser", "Copy docker pull command"]
}

pub fn docker_action_labels() -> (r: Vec<&'static str>)
    ensures
        r@ == docker_labels(),
{
    vec!["Open in browser", "Copy docker pull command"]
}

/// The lines of the menu of a repository, whatever service it is from.
pub open spec fn repo_labels() -> Seq<&'static str> {
    seq!["Open in browser", "Copy repository address"]
}

/// The lines of the menu of a repository from the given source. They are the
/// same for all of them.
pub fn repo_action_labels(_source: &str) -> (r: Vec<&'static str>)
    ensures
        r@ == repo_labels(),
{
    vec!["Open in browser", "Copy repository address"]
}

impl ModeView {
    /// The menu with another line selected.
    pub open spec fn selecting(self, line: nat) -> ModeView {
        match self {
            ModeView::TagList { repo, tags, .. } => ModeView::TagList {
                repo,
                tags,
                selected: line,
            },
            ModeView::ActionMenu { repo, tag, tags, .. } => ModeView::ActionMenu {
                repo,
                tag,
                tags,
                selected: line,
            },
            ModeView::RepoMenu { .. } => ModeView::RepoMenu { selected: line },
            _ => self,
        }
    }

    /// The line that is selected in a menu.
    pub open spec fn line(self) -> nat {
        match self {
            ModeView::TagList { selected, .. } => selected,
            ModeView::ActionMenu { selected, .. } => selected,
            ModeView::RepoMenu { selected } => selected,
            _ => 0,
        }
    }
}

/// The number of lines of the menu that is open.
pub open spec fn menu_lines(v: AppView) -> nat {
    match v.mode {
        ModeView::TagList { tags, .. } => tags.len(),
        ModeView::ActionMenu { .. } => docker_labels().len(),
        ModeView::RepoMenu { .. } => repo_labels().len(),
        _ => 0,
    }
}

/// Which list the keys move in.
#[derive(Clone, Copy, Debug, PartialEq, Eq, Structural)]
pub enum Focus {
    Results,
    Settings,
    Menu,
    Editor,
}

pub open spec fn focus_of(v: AppView) -> Focus {
    match v.mode {
        ModeView::Normal => if v.tab == Tab::Config {
            Focus::Settings
        } else {
            Focus::Results
        },
        ModeView::ConfigEdit { .. } => Focus::Editor,
        _ => Focus::Menu,
    }
}

fn focus(app: &AppState) -> (r: Focus)
    ensures
        r == focus_of(app@),
{
    match &app.mode {
        AppMode::Normal => if app.tab == Tab::Config {
            Focus::Settings
        } else {
            Focus::Results
        },
        AppMode::ConfigEdit { .. } => Focus::Editor,
        _ => Focus::Menu,
    }
}

/// The state with another line of the menu selected.
pub open spec fn on_line(v: AppView, line: nat) -> AppView {
    v.in_mode(v.mode.selecting(line))
}

pub open spec fn up(v: AppView) -> AppView {
    match focus_of(v) {
        Focus::Results => v.moved_up(),
        Focus::Settings => v.config_moved_up(),
        Focus::Menu => on_line(v, less(v.mode.line(), 1)),
        Focus::Editor => v,
    }
}

pub open spec fn down(v: AppView) -> AppView {
    match focus_of(v) {
        Focus::Results => v.moved_down(),
        Focus::Settings => v.config_moved_down(),
        Focus::Menu => if v.mode.line() + 1 < menu_lines(v) {
            on_line(v, v.mode.line() + 1)
        } else {
            v
        },
        Focus::Editor => v,
    }
}

pub open spec fn page_up(v: AppView) -> AppView {
    match focus_of(v) {
        Focus::Results => v.paged_up(),
        Focus::Settings => v.config_paged_up(),
        Focus::Menu => on_line(v, less(v.mode.line(), 10)),
        Focus::Editor => v,
    }
}

pub open spec fn page_down(v: AppView) -> AppView {
    match focus_of(v) {
        Focus::Results => v.paged_down(),
        Focus::Settings => v.config_paged_down(),
        Focus::Menu => if menu_lines(v) > 0 {
            on_line(v, lower(v.mode.line(), 10, menu_lines(v)))
        } else {
            v
        },
        Focus::Editor => v,
    }
}

fn menu_line(app: &AppState) -> (r: usize)
    ensures
        r == app@.mode.line(),
{
    match &app.mode {
        AppMode::TagList { selected, .. } => *selected,
        AppMode::ActionMenu { selected, .. } => *selected,
        AppMode::RepoMenu { selected } => *selected,
        _ => 0,
    }
}

fn menu_line_count(app: &AppState) -> (r: usize)
    ensures
        r == menu_lines(app@),
{
    match &app.mode {
        AppMode::TagList { tags, .. } => {
            assert(texts(tags@).len() == tags@.len());
            tags.len()
        },
        AppMode::ActionMenu { .. } => 2,
        AppMode::RepoMenu { .. } => 2,
        _ => 0,
    }
}

fn select_line(app: &mut AppState, line: usize)
    requires
        old(app).wf(),
        old(app)@.mode.selecting(line as nat).valid(),
    ensures
        final(app).wf(),
        final(app)@ == on_line(old(app)@, line as nat),
{
    match &mut app.mode {
        AppMode::TagList { selected, .. } => {
            *selected = line;
        },
        AppMode::ActionMenu { selected, .. } => {
            *selected = line;
        },
        AppMode::RepoMenu { selected } => {
            *selected = line;
        },
        _ => {},
    }
}

/// Moves one line up.
pub fn move_selection_up(app: &mut AppState)
    requires
        old(app).wf(),
    ensures
        final(app).wf(),
        final(app)@ == up(old(app)@),
{
    match focus(app) {
        Focus::Results => app.move_up(),
        Focus::Settings => app.move_config_up(),
        Focus::Menu => {
            let line = menu_line(app);
            select_line(
                app,
                if line > 0 {
                    line - 1
                } else {
                    0
                },
            );
        },
        Focus::Editor => {},
    }
}

/// Moves one line down.
pub fn move_selection_down(app: &mut AppState)
    requires
        old(app).wf(),
        focus_of(old(app)@) == Focus::Settings ==> items_searchable(
            old(app)@.items,
            old(app)@.query,
        ),
    ensures
        final(app).wf(),
        final(app)@ == down(old(app)@),
{
    match focus(app) {
        Focus::Results => app.move_down(),
        Focus::Settings => app.move_config_down(),
        Focus::Menu => {
            let line = menu_line(app);
            let count = menu_line_count(app);
            if count > 0 && line < count - 1 {
                select_line(app, line + 1);
            }
        },
        Focus::Editor => {},
    }
}

/// Moves ten lines up.
pub fn page_selection_up(app: &mut AppState)
    requires
        old(app).wf(),
    ensures
        final(app).wf(),
        final(app)@ == page_up(old(app)@),
{
    match focus(app) {
        Focus::Results => app.page_up(),
        Focus::Settings => app.page_config_up(),
        Focus::Menu => {
            let line = menu_line(app);
            select_line(
                app,
                if line > 10 {
                    line - 10
                } else {
                    0
                },
            );
        },
        Focus::Editor => {},
    }
}

/// Moves ten lines down.
pub fn page_selection_down(app: &mut AppState)
    requires
        old(app).wf(),
        focus_of(old(app)@) == Focus::Settings ==> items_searchable(
            old(app)@.items,
            old(app)@.query,
        ),
    ensures
        final(app).wf(),
        final(app)@ == page_down(old(app)@),
{
    match focus(app) {
        Focus::Results => app.page_down(),
        Focus::Settings => app.page_config_down(),
        Focus::Menu => {
            let line = menu_line(app);
            let count = menu_line_count(app);
            if count > 0 {
                select_line(app, lower_by(line, 10, count));
            }
        },
        Focus::Editor => {},
    }
}

// ---------------------------------------------------------------------------
// Menus
// ---------------------------------------------------------------------------

/// What choosing a tag does: the menu of the image opens.
pub open spec fn tag_selected(v: AppView) -> AppView {
    match v.mode {
        ModeView::TagList { repo, tags, selected } => v.in_mode(
            ModeView::ActionMenu {
                repo,
                tag: Some(tags[selected as int]),
                tags,
                selected: 0,
            },
        ),
        _ => v,
    }
}

/// Opens the menu of the selected tag.
pub fn select_docker_tag(app: &mut AppState)
    requires
        old(app).wf(),
    ensures
        final(app).wf(),
        final(app)@ == tag_selected(old(app)@),
{
    let next = match &app.mode {
        AppMode::TagList { repo, tags, selected } => {
            assert(texts(tags@)[*selected as int] == tags@[*selected as int]@);
            AppMode::ActionMenu {
                repo: repo.clone(),
                tag: Some(tags[*selected].clone()),
                tags: copied_texts(tags),
                selected: 0,
            }
        },
        _ => return ,
    };
    app.enter(next);
}

/// What leaving the menu of an image does: the tags are shown again, or the
/// results where there are none.
pub open spec fn menu_left(v: AppView) -> AppView {
    match v.mode {
        ModeView::ActionMenu { repo, tags, .. } => if tags.len() == 0 {
            v.in_mode(ModeView::Normal).telling("Type to search."@)
        } else {
            v.in_mode(ModeView::TagList { repo, tags, selected: 0 })
        },
        _ => v,
    }
}

/// Leaves the menu of an image.
pub fn back_to_docker_tags(app: &mut AppState)
    requires
        old(app).wf(),
    ensures
        final(app).wf(),
        final(app)@ == menu_left(old(app)@),
{
    let next = match &app.mode {
        AppMode::ActionMenu { repo, tags, .. } => {
            assert(texts(tags@).len() == tags@.len());
            if tags.len() == 0 {
                None
            } else {
                Some(
                    AppMode::TagList { repo: repo.clone(), tags: copied_texts(tags), selected: 0 },
                )
            }
        },
        _ => return ,
    };
    match next {
        Some(mode) => app.enter(mode),
        None => {
            app.enter(AppMode::Normal);
            app.tell("Type to search.".to_string());
        },
    }
}

/// The page of an image, or of one of its tags.
pub open spec fn image_page(repo: Seq<char>, tag: Option<Seq<char>>) -> Seq<char> {
    match tag {
        Some(tag) => "https://hub.docker.com/r/"@ + repo + "/tags?name="@ + tag,
        None => "https://hub.docker.com/r/"@ + repo,
    }
}

/// The name of an image, with its tag where one is chosen.
pub open spec fn image_name(repo: Seq<char>, tag: Option<Seq<char>>) -> Seq<char> {
    match tag {
        Some(tag) => repo + ":"@ + tag,
        None => repo,
    }
}

/// What confirming a line of the menu of an image does.
pub open spec fn docker_confirmed(v: AppView) -> (AppView, EffectView) {
    match v.mode {
        ModeView::ActionMenu { repo, tag, selected, .. } => {
            let w = v.in_mode(ModeView::Normal);
            let pull = "docker pull "@ + image_name(repo, tag);
            if selected == 0 {
                (
                    w.telling("Opened "@ + image_name(repo, tag) + " in browser"@),
                    EffectView::Browse(image_page(repo, tag)),
                )
            } else if selected == 1 {
                (w.telling("Copied: "@ + pull), EffectView::Copy(pull))
            } else {
                (w, EffectView::Nothing)
            }
        },
        _ => (v, EffectView::Nothing),
    }
}

fn name_image(repo: &str, tag: &Option<String>) -> (r: String)
    ensures
        r@ == image_name(repo@, opt_text(*tag)),
{
    match tag {
        Some(tag) => glue3(repo, ":", tag.as_str()),
        None => repo.to_string(),
    }
}

fn page_of_image(repo: &str, tag: &Option<String>) -> (r: String)
    ensures
        r@ == image_page(repo@, opt_text(*tag)),
{
    let mut page = glue("https://hub.docker.com/r/", repo);
    if let Some(tag) = tag {
        page.append("/tags?name=");
        page.append(tag.as_str());
    }
    page
}

/// Confirms a line of the menu of an image.
pub fn confirm_docker_action(app: &mut AppState) -> (r: Effect)
    requires
        old(app).wf(),
    ensures
        final(app).wf(),
        (final(app)@, r@) == docker_confirmed(old(app)@),
{
    let (name, page, line) = match &app.mode {
        AppMode::ActionMenu { repo, tag, selected, .. } => (
            name_image(repo.as_str(), tag),
            page_of_image(repo.as_str(), tag),
            *selected,
        ),
        _ => return Effect::Nothing,
    };
    app.enter(AppMode::Normal);
    if line == 0 {
        app.tell(glue3("Opened ", name.as_str(), " in browser"));
        Effect::Browse(page)
    } else if line == 1 {
        let pull = glue("docker pull ", name.as_str());
        app.tell(glue("Copied: ", pull.as_str()));
        Effect::Copy(pull)
    } else {
        Effect::Nothing
    }
}

/// A path without `.git` at its end, however often it stands there.
pub open spec fn without_git(path: Seq<char>) -> Seq<char>
    decreases path.len(),
{
    if ".git"@.is_suffix_of(path) && 0 < ".git"@.len() <= path.len() {
        without_git(path.take(path.len() - ".git"@.len()))
    } else {
        path
    }
}

/// The address for SSH of a repository whose page has the given address. Only
/// an address that begins with `https://` and has a path has one.
pub open spec fn ssh_url(url: Seq<char>) -> Option<Seq<char>> {
    match without_prefix(trim_end(url, Class::Just('/')), "https://"@) {
        None => None,
        Some(rest) => match first_of(rest, Class::Just('/')) {
            None => None,
            Some(slash) => Some(
                "git@"@ + rest.take(slash) + ":"@ + without_git(rest.skip(slash + 1)) + ".git"@,
            ),
        },
    }
}

fn strip_git(path: String) -> (r: String)
    ensures
        r@ == without_git(path@),
{
    proof {
        reveal_strlit(".git");
    }
    let mut out = path;
    loop
        invariant
            without_git(path@) == without_git(out@),
            ".git"@.len() == 4,
        decreases out@.len(),
    {
        match strip_suffix(out.as_str(), ".git") {
            Some(shorter) => {
                assert(shorter@.len() == out@.len() - 4);
                out = shorter;
            },
            None => {
                return out;
            },
        }
    }
}

/// The address for SSH of a repository.
pub fn repo_ssh_url(https_url: &str) -> (r: Option<String>)
    ensures
        opt_text(r) == ssh_url(https_url@),
{
    let url = trimmed_end(https_url, Class::Just('/'));
    let rest = match strip_prefix(url.as_str(), "https://") {
        Some(rest) => rest,
        None => return None,
    };
    let n = rest.as_str().unicode_len();
    let slash = match first_place(rest.as_str(), Class::Just('/')) {
        Some(slash) => slash,
        None => return None,
    };
    let host = rest.as_str().substring_char(0, slash);
    let path = rest.as_str().substring_char(slash + 1, n);
    assert(host@ =~= rest@.take(slash as int));
    assert(path@ =~= rest@.skip(slash + 1));
    let mut out = glue3("git@", host, ":");
    out.append(strip_git(path.to_string()).as_str());
    out.append(".git");
    Some(out)
}

/// What confirming a line of the menu of a repository does.
pub open spec fn repo_confirmed(v: AppView) -> (AppView, EffectView) {
    match v.mode {
        ModeView::RepoMenu { selected } => match v.selected_place() {
            None => (v, EffectView::Nothing),
            Some(place) => {
                let entry = v.entries[place as int];
                let w = v.in_mode(ModeView::Normal);
                if selected == 0 {
                    (w, EffectView::Open { url: entry.url, title: entry.title })
                } else if selected == 1 {
                    (w.telling("Copied HTTPS: "@ + entry.url), EffectView::Copy(entry.url))
                } else {
                    (w, EffectView::Nothing)
                }
            },
        },
        _ => (v, EffectView::Nothing),
    }
}

/// Confirms a line of the menu of a repository.
pub fn confirm_repo_action(app: &mut AppState) -> (r: Effect)
    requires
        old(app).wf(),
    ensures
        final(app).wf(),
        (final(app)@, r@) == repo_confirmed(old(app)@),
{
    let line = match &app.mode {
        AppMode::RepoMenu { selected } => *selected,
        _ => return Effect::Nothing,
    };
    let entry = match app.selected_entry() {
        Some(entry) => entry.clone(),
        None => return Effect::Nothing,
    };
    assert(app@.entries[app@.selected_place()->0 as int] == entry@);
    app.enter(AppMode::Normal);
    if line == 0 {
        Effect::Open { url: entry.url, title: entry.title }
    } else if line == 1 {
        app.tell(glue("Copied HTTPS: ", entry.url.as_str()));
        Effect::Copy(entry.url)
    } else {
        Effect::Nothing
    }
}

// ---------------------------------------------------------------------------
// All actions
// ---------------------------------------------------------------------------

/// What asking for a refresh of the current tab does.
pub open spec fn refresh_asked(v: AppView) -> (AppView, EffectView) {
    match v.tab.refreshes() {
        Some(request) => (
            v.telling("Requested "@ + v.tab.title() + " refresh."@),
            EffectView::Refresh(request),
        ),
        None => (v.telling(v.tab.title() + " tab has no refresh."@), EffectView::Nothing),
    }
}

/// What typing a character does: it goes into the setting that is edited, or
/// into the query.
pub open spec fn typed(v: AppView, ch: char) -> AppView {
    match v.mode {
        ModeView::ConfigEdit { item_index, buffer } => v.in_mode(
            ModeView::ConfigEdit { item_index, buffer: buffer.push(ch) },
        ),
        _ => v.with_query(v.query.push(ch)),
    }
}

/// What deleting a character does.
pub open spec fn deleted(v: AppView) -> AppView {
    match v.mode {
        ModeView::ConfigEdit { item_index, buffer } => v.in_mode(
            ModeView::ConfigEdit { item_index, buffer: shorter(buffer) },
        ),
        _ => v.with_query(shorter(v.query)),
    }
}

/// What an action does.
pub open spec fn acted(v: AppView, action: Action) -> (AppView, EffectView) {
    match action {
        Action::Quit => (v, EffectView::Quit),
        Action::OpenSelected => if v.tab == Tab::Config {
            edit_started(v)
        } else {
            selection_opened(v)
        },
        Action::MoveUp => (up(v), EffectView::Nothing),
        Action::MoveDown => (down(v), EffectView::Nothing),
        Action::PageUp => (page_up(v), EffectView::Nothing),
        Action::PageDown => (page_down(v), EffectView::Nothing),
        Action::JumpTop => (v.selecting(0), EffectView::Nothing),
        Action::JumpBottom => (v.at_bottom(), EffectView::Nothing),
        Action::PreviousTab => (
            v.in_mode(ModeView::Normal).on_previous_tab(),
            EffectView::Nothing,
        ),
        Action::NextTab => (v.in_mode(ModeView::Normal).on_next_tab(), EffectView::Nothing),
        Action::ToggleConfigTab => (v.config_tab_toggled(), EffectView::Nothing),
        Action::RefreshCurrentTab => refresh_asked(v),
        Action::Backspace => (deleted(v), EffectView::Nothing),
        Action::InsertChar(ch) => (typed(v, ch), EffectView::Nothing),
        Action::BackToNormal => (
            v.in_mode(ModeView::Normal).telling("Type to search."@),
            EffectView::Nothing,
        ),
        Action::SelectTag => (tag_selected(v), EffectView::Nothing),
        Action::BackToTags => (menu_left(v), EffectView::Nothing),
        Action::ConfirmDockerAction => docker_confirmed(v),
        Action::ConfirmRepoAction => repo_confirmed(v),
        Action::CommitConfigEdit => edit_committed(v),
        Action::CancelConfigEdit => (
            v.in_mode(ModeView::Normal).telling("Config edit cancelled."@),
            EffectView::Nothing,
        ),
    }
}

fn ask_for_refresh(app: &mut AppState) -> (r: Effect)
    requires
        old(app).wf(),
    ensures
        final(app).wf(),
        (final(app)@, r@) == refresh_asked(old(app)@),
{
    match app.tab.refresh_request() {
        Some(request) => {
            app.tell(glue3("Requested ", app.tab.name(), " refresh."));
            Effect::Refresh(request)
        },
        None => {
            app.tell(glue(app.tab.name(), " tab has no refresh."));
            Effect::Nothing
        },
    }
}

fn insert_char(app: &mut AppState, ch: char)
    requires
        old(app).wf(),
    ensures
        final(app).wf(),
        final(app)@ == typed(old(app)@, ch),
{
    let editing = match &app.mode {
        AppMode::ConfigEdit { .. } => true,
        _ => false,
    };
    if editing {
        app.push_config_edit_char(ch);
    } else {
        app.push_char(ch);
    }
}

fn delete_char(app: &mut AppState)
    requires
        old(app).wf(),
    ensures
        final(app).wf(),
        final(app)@ == deleted(old(app)@),
{
    let editing = match &app.mode {
        AppMode::ConfigEdit { .. } => true,
        _ => false,
    };
    if editing {
        app.pop_config_edit_char();
    } else {
        app.backspace();
    }
}

/// Whether an action searches: it opens another tab, or acts on the list of
/// settings.
pub open spec fn searches(v: AppView, action: Action) -> bool {
    match action {
        Action::PreviousTab | Action::NextTab | Action::ToggleConfigTab => true,
        Action::OpenSelected => v.tab == Tab::Config,
        Action::MoveDown | Action::PageDown => focus_of(v) == Focus::Settings,
        _ => false,
    }
}

/// Does an action.
pub fn apply_action(app: &mut AppState, action: Action) -> (r: Effect)
    requires
        old(app).wf(),
        searches(old(app)@, action) ==> old(app)@.searchable(),
    ensures
        final(app).wf(),
        (final(app)@, r@) == acted(old(app)@, action),
{
    match action {
        Action::Quit => return Effect::Quit,
        Action::OpenSelected => {
            return if app.tab == Tab::Config {
                start_config_edit(app)
            } else {
                open_selected_entry(app)
            };
        },
        Action::MoveUp => move_selection_up(app),
        Action::MoveDown => move_selection_down(app),
        Action::PageUp => page_selection_up(app),
        Action::PageDown => page_selection_down(app),
        Action::JumpTop => app.jump_top(),
        Action::JumpBottom => app.jump_bottom(),
        Action::PreviousTab => {
            app.enter(AppMode::Normal);
            app.previous_tab();
        },
        Action::NextTab => {
            app.enter(AppMode::Normal);
            app.next_tab();
        },
        Action::ToggleConfigTab => app.toggle_config_tab(),
        Action::RefreshCurrentTab => return ask_for_refresh(app),
        Action::Backspace => delete_char(app),
        Action::InsertChar(ch) => insert_char(app, ch),
        Action::BackToNormal => {
            app.enter(AppMode::Normal);
            app.tell("Type to search.".to_string());
        },
        Action::SelectTag => select_docker_tag(app),
        Action::BackToTags => back_to_docker_tags(app),
        Action::ConfirmDockerAction => return confirm_docker_action(app),
        Action::ConfirmRepoAction => return confirm_repo_action(app),
        Action::CommitConfigEdit => return commit_config_edit(app),
        Action::CancelConfigEdit => cancel_config_edit(app),
    }
    Effect::Nothing
}

/// What a key does in the mode that the state is in.
pub open spec fn pressed(v: AppView, key: InputKey) -> (AppView, EffectView) {
    match resolved(v.mode.kind(), key) {
        Some(action) => acted(v, action),
        None => (v, EffectView::Nothing),
    }
}

/// Does what a key stands for in the mode that the state is in.
pub fn handle_key(app: &mut AppState, key: InputKey) -> (r: Effect)
    requires
        old(app).wf(),
        resolved(old(app)@.mode.kind(), key) matches Some(action) ==> (searches(old(app)@, action)
            ==> old(app)@.searchable()),
    ensures
        final(app).wf(),
        (final(app)@, r@) == pressed(old(app)@, key),
        (final(app)@, r@) == (match resolved(old(app)@.mode.kind(), key) {
            Some(action) => acted(old(app)@, action),
            None => (old(app)@, EffectView::Nothing),
        }),
{
    match resolve_action(app.mode.kind(), key) {
        Some(action) => apply_action(app, action),
        None => Effect::Nothing,
    }
}

// ---------------------------------------------------------------------------
// News from the background
// ---------------------------------------------------------------------------

/// What the background tells the interface.
#[derive(Debug)]
pub enum UiEvent {
    ReplaceSourceEntries { sources: Vec<String>, entries: Vec<Entry> },
    Status(String),
}

/// The state after news from the background.
pub open spec fn after_event(v: AppView, event: UiEvent) -> AppView {
    match event {
        UiEvent::ReplaceSourceEntries { sources, entries } => v.with_replaced(
            texts(sources@),
            views(entries@),
        ).telling("Browser data refreshed ("@ + decimal(entries@.len()) + " items)."@),
        UiEvent::Status(message) => v.telling(message@),
    }
}

/// Takes in news from the background.
pub fn handle_event(app: &mut AppState, event: UiEvent)
    requires
        old(app).wf(),
        event matches UiEvent::ReplaceSourceEntries { entries, .. } ==> old(app)@.searchable()
            && searchable(stacked(views(entries@)), old(app)@.query),
    ensures
        final(app).wf(),
        final(app)@ == after_event(old(app)@, event),
{
    match event {
        UiEvent::ReplaceSourceEntries { sources, entries } => {
            let count = entries.len();
            app.replace_entries_for_sources(&sources, entries);
            app.tell(
                glue3("Browser data refreshed (", decimal_of(count as u64).as_str(), " items)."),
            );
        },
        UiEvent::Status(message) => app.tell(message),
    }
}

// ---------------------------------------------------------------------------
// What holds of the actions
// ---------------------------------------------------------------------------

proof fn lemma_without_git(path: Seq<char>)
    requires
        !".git"@.is_suffix_of(path),
    ensures
        without_git(path) == path,
        without_git(path + ".git"@) == path,
{
    reveal_strlit(".git");
    let longer = path + ".git"@;
    assert(longer.subrange(longer.len() - 4, longer.len() as int) =~= ".git"@);
    assert(".git"@.is_suffix_of(longer));
    assert(longer.take(longer.len() - 4) =~= path);
}

proof fn lemma_ssh_url(host: Seq<char>, path: Seq<char>)
    requires
        forall|i: int| 0 <= i < host.len() ==> #[trigger] host[i] != '/',
        path.len() > 0 && path.last() != '/',
    ensures
        ssh_url("https://"@ + host + "/"@ + path) == Some(
            "git@"@ + host + ":"@ + without_git(path) + ".git"@,
        ),
{
    reveal_strlit("https://");
    reveal_strlit("/");
    let url = "https://"@ + host + "/"@ + path;
    let rest = host + "/"@ + path;
    assert(url.last() == path.last());
    assert(trim_end(url, Class::Just('/')) == url);
    assert(url.subrange(0, 8) =~= "https://"@);
    assert("https://"@.is_prefix_of(url));
    assert(url.skip(8) =~= rest);
    let slash = host.len() as int;
    assert(rest[slash] == '/');
    assert forall|j: int| 0 <= j < slash implies !Class::Just('/').has(#[trigger] rest[j]) by {
        assert(rest[j] == host[j]);
    }
    lemma_first_of_is(rest, Class::Just('/'), slash);
    assert(rest.take(slash) =~= host);
    assert(rest.skip(slash + 1) =~= path);
}

/// A repository on a host has the SSH address that belongs to its path,
/// whether the address of its page ends with `.git`, with a slash, or with
/// neither.
pub proof fn law_ssh_url_of_page(host: Seq<char>, path: Seq<char>)
    requires
        forall|i: int| 0 <= i < host.len() ==> #[trigger] host[i] != '/',
        path.len() > 0 && path.last() != '/',
        !".git"@.is_suffix_of(path),
    ensures
        ssh_url("https://"@ + host + "/"@ + path) == Some("git@"@ + host + ":"@ + path + ".git"@),
        ssh_url("https://"@ + host + "/"@ + path + ".git"@) == Some(
            "git@"@ + host + ":"@ + path + ".git"@,
        ),
        ssh_url("https://"@ + host + "/"@ + path + "/"@) == Some(
            "git@"@ + host + ":"@ + path + ".git"@,
        ),
{
    reveal_strlit(".git");
    reveal_strlit("/");
    let url = "https://"@ + host + "/"@ + path;
    lemma_without_git(path);
    lemma_ssh_url(host, path);
    let longer = path + ".git"@;
    assert(longer.last() == 't');
    lemma_ssh_url(host, longer);
    assert(url + ".git"@ =~= "https://"@ + host + "/"@ + longer);
    let slashed = url + "/"@;
    assert(slashed.last() == '/');
    assert(slashed.drop_last() =~= url);
    assert(url.last() == path.last());
    assert(trim_end(slashed, Class::Just('/')) == trim_end(url, Class::Just('/')));
}

/// Choosing a tag and going back shows the same tags again.
pub proof fn law_back_from_tag(v: AppView)
    requires
        v.mode is TagList,
        v.mode.valid(),
    ensures
        menu_left(tag_selected(v)) == v.in_mode(v.mode.selecting(0)),
{
}

/// A value that is refused changes the message alone, and giving up an edit
/// changes the mode and the message alone. Where nothing is shared, the
/// configuration and the list of settings stay as they are.
pub proof fn law_refused_edit_changes_nothing(v: AppView)
    ensures
        v.mode matches ModeView::ConfigEdit { item_index, buffer } ==> {
            let item = v.items[item_index as int];
            let value = trim(buffer, Class::Space);
            let edited = item.edit_kind == ConfigEditKind::Text || item.edit_kind
                == ConfigEditKind::Secret;
            item_index < v.items.len() && edited && item_set(v.config, item, value) is Err
                ==> edit_committed(v) == (
                v.telling(item_set(v.config, item, value)->Err_0),
                EffectView::Nothing,
            )
        },
        edit_committed(v).1 is Nothing ==> edit_committed(v).0.config == v.config
            && edit_committed(v).0.items == v.items,
        acted(v, Action::CancelConfigEdit) == (
            v.in_mode(ModeView::Normal).telling("Config edit cancelled."@),
            EffectView::Nothing,
        ),
{
}

proof fn lemma_up_keeps_config(v: AppView)
    ensures
        up(v).config == v.config,
{
}

proof fn lemma_down_keeps_config(v: AppView)
    ensures
        down(v).config == v.config,
{
}

proof fn lemma_page_up_keeps_config(v: AppView)
    ensures
        page_up(v).config == v.config,
{
}

proof fn lemma_page_down_keeps_config(v: AppView)
    ensures
        page_down(v).config == v.config,
{
}

/// Only actions in the configuration change the configuration, and every such
/// change asks for it to be shared.
#[verifier::spinoff_prover]
#[verifier::rlimit(40)]
pub proof fn law_config_changes_are_shared(v: AppView, action: Action)
    requires
        acted(v, action).0.config != v.config,
    ensures
        acted(v, action).1 is ShareConfig,
        action == Action::OpenSelected || action == Action::CommitConfigEdit,
{
    match action {
        Action::MoveUp => {
            lemma_up_keeps_config(v);
        },
        Action::MoveDown => {
            lemma_down_keeps_config(v);
        },
        Action::PageUp => {
            lemma_page_up_keeps_config(v);
        },
        Action::PageDown => {
            lemma_page_down_keeps_config(v);
        },
        Action::PreviousTab => {
            lemma_tabs_keep_config(v);
        },
        Action::NextTab => {
            lemma_tabs_keep_config(v);
        },
        Action::ToggleConfigTab => {
            lemma_toggled_keeps_config(v);
        },
        Action::CommitConfigEdit => {
            law_refused_edit_changes_nothing(v);
        },
        _ => {},
    }
}

proof fn lemma_tabs_keep_config(v: AppView)
    ensures
        v.in_mode(ModeView::Normal).on_previous_tab().config == v.config,
        v.in_mode(ModeView::Normal).on_next_tab().config == v.config,
{
    let normal = v.in_mode(ModeView::Normal);
    let before = tab_before(normal.tabs(), v.tab);
    let after = tab_after(normal.tabs(), v.tab);
    lemma_recomputed_keeps(AppView { tab: before, selected: 0, scroll_start: 0, ..normal });
    lemma_recomputed_keeps(AppView { tab: after, selected: 0, scroll_start: 0, ..normal });
}

proof fn lemma_toggled_keeps_config(v: AppView)
    ensures
        v.config_tab_toggled().config == v.config,
{
    let shown = !v.config_tab_visible;
    let w = AppView {
        config_tab_visible: shown,
        mode: ModeView::Normal,
        tab: if shown {
            Tab::Config
        } else if v.tab == Tab::Config {
            Tab::History
        } else {
            v.tab
        },
        message: if shown {
            "Config tab shown."@
        } else {
            "Config tab hidden."@
        },
        selected: 0,
        scroll_start: 0,
        ..v
    };
    lemma_recomputed_keeps(w.on_shown_tab());
}

} // verus!
