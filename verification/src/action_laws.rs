//! What holds of the actions, in the words of what the user sees and gets.
use crate::actions::{acted, after_event, after_sharing, docker_confirmed, down, entry_chosen};
use crate::actions::{item_edited, item_label, item_set, item_toggled, pressed};
use crate::actions::{selection_opened, tag_selected, EffectView, UiEvent};
use crate::config::{interval_of, ConfigView};
use crate::config_items::{config_items_of, interval_text, item_of, ConfigEditKind, ItemView};
use crate::config_rows::RowView;
use crate::input::{ctrl_key, plain_key, InputCode};
use crate::keymap::{law_characters_are_typed, law_enter_is_not_ctrl_j, law_keys_of_the_menus};
use crate::keymap::{law_keys_of_the_results, law_named_keys_in_all_lists};
use crate::keymap::{law_only_escape_quits, Action, AppModeKind};
use crate::models::{views, EntryView};
use crate::refresh::RefreshRequest;
use crate::repos::tags_of;
use crate::state::{replaced, AppView, ModeView};
use crate::state_laws::lemma_recomputed_keeps;
use crate::tabs::Tab;
use crate::text::{decimal, texts, trim, Class};
use vstd::prelude::*;
use vstd::string::*;

verus! {

// ---------------------------------------------------------------------------
// Opening
// ---------------------------------------------------------------------------

/// Whether an entry is the one on the selected line.
pub open spec fn is_selected(v: AppView, entry: EntryView) -> bool {
    &&& v.selected < v.visible.len()
    &&& v.visible[v.selected as int] < v.entries.len()
    &&& v.entries[v.visible[v.selected as int] as int] == entry
}

proof fn lemma_kinds(source: Seq<char>)
    requires
        source == "github"@ || source == "gitlab"@,
    ensures
        source != "public"@,
        source != "private"@,
{
    reveal_strlit("github");
    reveal_strlit("gitlab");
    reveal_strlit("public");
    reveal_strlit("private");
    assert("public"@[0] != source[0]);
    assert("private"@.len() != source.len());
}

proof fn lemma_opened(v: AppView)
    ensures
        v.tab != Tab::Config ==> acted(v, Action::OpenSelected) == selection_opened(v),
        acted(v, Action::SelectTag) == (tag_selected(v), EffectView::Nothing),
        acted(v, Action::ConfirmDockerAction) == docker_confirmed(v),
        acted(v, Action::MoveDown) == (down(v), EffectView::Nothing),
{
}

/// Opening the selected line opens the menu of a repository, the tags of an
/// image, or its menu where it has no tags, and the address of anything else.
/// Without a selected line nothing happens.
#[verifier::rlimit(40)]
pub proof fn law_opening(v: AppView, entry: EntryView)
    requires
        v.tab != Tab::Config,
    ensures
        v.selected >= v.visible.len() ==> acted(v, Action::OpenSelected) == (
            v,
            EffectView::Nothing,
        ),
        is_selected(v, entry) ==> {
            let (w, effect) = acted(v, Action::OpenSelected);
            let tags = tags_of(entry.detail);
            &&& w == (AppView { mode: w.mode, ..v })
            &&& if entry.source == "github"@ || entry.source == "gitlab"@ {
                effect is Nothing && w.mode == (ModeView::RepoMenu { selected: 0 })
            } else if entry.source == "public"@ || entry.source == "private"@ {
                &&& effect is Nothing
                &&& tags.len() > 0 ==> w.mode == (ModeView::TagList {
                    repo: entry.title,
                    tags,
                    selected: 0,
                })
                &&& tags.len() == 0 ==> w.mode == (ModeView::ActionMenu {
                    repo: entry.title,
                    tag: None,
                    tags,
                    selected: 0,
                })
            } else {
                w == v && effect == (EffectView::Open { url: entry.url, title: entry.title })
            }
        },
{
    lemma_opened(v);
    lemma_chosen(v, entry);
}

proof fn lemma_chosen(v: AppView, entry: EntryView)
    ensures
        ({
            let (w, effect) = entry_chosen(v, entry);
            let tags = tags_of(entry.detail);
            &&& w == (AppView { mode: w.mode, ..v })
            &&& if entry.source == "github"@ || entry.source == "gitlab"@ {
                effect is Nothing && w.mode == (ModeView::RepoMenu { selected: 0 })
            } else if entry.source == "public"@ || entry.source == "private"@ {
                &&& effect is Nothing
                &&& tags.len() > 0 ==> w.mode == (ModeView::TagList {
                    repo: entry.title,
                    tags,
                    selected: 0,
                })
                &&& tags.len() == 0 ==> w.mode == (ModeView::ActionMenu {
                    repo: entry.title,
                    tag: None,
                    tags,
                    selected: 0,
                })
            } else {
                w == v && effect == (EffectView::Open { url: entry.url, title: entry.title })
            }
        }),
{
}

/// The first line of the menu of a repository opens the address of the selected
/// entry, the second copies it. Both leave the menu.
pub proof fn law_repo_menu(v: AppView, entry: EntryView)
    requires
        is_selected(v, entry),
    ensures
        v.mode == (ModeView::RepoMenu { selected: 0 }) ==> acted(v, Action::ConfirmRepoAction) == (
            AppView { mode: ModeView::Normal, ..v },
            EffectView::Open { url: entry.url, title: entry.title },
        ),
        v.mode == (ModeView::RepoMenu { selected: 1 }) ==> acted(v, Action::ConfirmRepoAction).1
            == EffectView::Copy(entry.url) && acted(v, Action::ConfirmRepoAction).0.mode
            == ModeView::Normal,
{
}

/// The first line of the menu of an image opens its page, or that of the tag
/// that was chosen; the second copies the command that pulls the image, with
/// the tag behind a colon where one was chosen. Both leave the menu.
pub proof fn law_docker_menu(v: AppView, repo: Seq<char>, tag: Option<Seq<char>>)
    requires
        v.mode matches ModeView::ActionMenu { repo: r, tag: t, .. } && r == repo && t == tag,
    ensures
        ({
            let (w, effect) = acted(v, Action::ConfirmDockerAction);
            &&& w.mode == ModeView::Normal
            &&& v.mode->ActionMenu_selected == 0 ==> (match tag {
                Some(tag) => effect == EffectView::Browse(
                    "https://hub.docker.com/r/"@ + repo + "/tags?name="@ + tag,
                ) && w.message == "Opened "@ + (repo + ":"@ + tag) + " in browser"@,
                None => effect == EffectView::Browse("https://hub.docker.com/r/"@ + repo)
                    && w.message == "Opened "@ + repo + " in browser"@,
            })
            &&& v.mode->ActionMenu_selected == 1 ==> (match tag {
                Some(tag) => effect == EffectView::Copy("docker pull "@ + repo + ":"@ + tag),
                None => effect == EffectView::Copy("docker pull "@ + repo),
            }) && w.message == "Copied: "@ + effect->Copy_0
        }),
{
    if let Some(tag) = tag {
        assert("docker pull "@ + repo + ":"@ + tag =~= "docker pull "@ + (repo + ":"@ + tag));
    }
}

/// The commands and the pages of different tags of one image differ, and so do
/// those of an image with a tag and without one.
pub proof fn law_tags_are_told_apart(
    v: AppView,
    w: AppView,
    repo: Seq<char>,
    a: Seq<char>,
    b: Option<Seq<char>>,
    line: nat,
)
    requires
        v.mode matches ModeView::ActionMenu { repo: r, tag, selected, .. } && r == repo && tag
            == Some(a) && selected == line,
        w.mode matches ModeView::ActionMenu { repo: r, tag, selected, .. } && r == repo && tag == b
            && selected == line,
        line < 2,
        b != Some(a),
    ensures
        acted(v, Action::ConfirmDockerAction).1 != acted(w, Action::ConfirmDockerAction).1,
{
    law_docker_menu(v, repo, Some(a));
    law_docker_menu(w, repo, b);
    reveal_strlit(":");
    reveal_strlit("/tags?name=");
    let head = if line == 0 {
        "https://hub.docker.com/r/"@ + repo + "/tags?name="@
    } else {
        "docker pull "@ + repo + ":"@
    };
    let n = head.len() as int;
    assert((head + a).skip(n) =~= a);
    if let Some(other) = b {
        assert((head + other).skip(n) =~= other);
    }
}

/// Whoever opens an image, goes to one of its tags and chooses it gets the
/// command that pulls just that tag, or its page.
#[verifier::spinoff_prover]
#[verifier::rlimit(60)]
pub proof fn law_chosen_tag_is_pulled(v: AppView, entry: EntryView, k: nat)
    requires
        v.tab != Tab::Config,
        v.mode == ModeView::Normal,
        is_selected(v, entry),
        entry.source == "public"@ || entry.source == "private"@,
        k < tags_of(entry.detail).len(),
    ensures
        ({
            let tag = tags_of(entry.detail)[k as int];
            let list = acted(v, Action::OpenSelected).0;
            let menu = acted(
                AppView { mode: list.mode.selecting(k), ..list },
                Action::SelectTag,
            ).0;
            let second = acted(menu, Action::MoveDown).0;
            &&& list.mode is TagList
            &&& acted(menu, Action::ConfirmDockerAction).1 == EffectView::Browse(
                "https://hub.docker.com/r/"@ + entry.title + "/tags?name="@ + tag,
            )
            &&& acted(second, Action::ConfirmDockerAction).1 == EffectView::Copy(
                "docker pull "@ + entry.title + ":"@ + tag,
            )
        }),
{
    if entry.source == "github"@ || entry.source == "gitlab"@ {
        lemma_kinds(entry.source);
    }
    let tags = tags_of(entry.detail);
    let tag = tags[k as int];
    let list = acted(v, Action::OpenSelected).0;
    law_opening(v, entry);
    assert(list.mode == (ModeView::TagList { repo: entry.title, tags, selected: 0 }));
    let at = AppView { mode: list.mode.selecting(k), ..list };
    let menu = acted(at, Action::SelectTag).0;
    lemma_opened(at);
    assert(menu.mode == (ModeView::ActionMenu {
        repo: entry.title,
        tag: Some(tag),
        tags,
        selected: 0,
    }));
    let second = acted(menu, Action::MoveDown).0;
    lemma_opened(menu);
    assert(second.mode == (ModeView::ActionMenu {
        repo: entry.title,
        tag: Some(tag),
        tags,
        selected: 1,
    }));
    law_docker_menu(menu, entry.title, Some(tag));
    law_docker_menu(second, entry.title, Some(tag));
}

/// In a menu the keys move by one line or by ten, and never beyond the first
/// or the last line: a list of tags has as many lines as there are tags, the
/// other menus have two.
pub proof fn law_moving_in_menus(v: AppView, line: nat, count: nat)
    requires
        v.mode.valid(),
        match v.mode {
            ModeView::TagList { tags, selected, .. } => count == tags.len() && line == selected,
            ModeView::ActionMenu { selected, .. } => count == 2 && line == selected,
            ModeView::RepoMenu { selected } => count == 2 && line == selected,
            _ => false,
        },
    ensures
        acted(v, Action::MoveDown) == (
            AppView {
                mode: v.mode.selecting(
                    if line + 1 < count {
                        line + 1
                    } else {
                        line
                    },
                ),
                ..v
            },
            EffectView::Nothing,
        ),
        acted(v, Action::MoveUp) == (
            AppView {
                mode: v.mode.selecting(
                    if line > 0 {
                        (line - 1) as nat
                    } else {
                        0
                    },
                ),
                ..v
            },
            EffectView::Nothing,
        ),
        acted(v, Action::PageDown) == (
            AppView {
                mode: v.mode.selecting(
                    if line + 10 < count {
                        line + 10
                    } else {
                        (count - 1) as nat
                    },
                ),
                ..v
            },
            EffectView::Nothing,
        ),
        acted(v, Action::PageUp) == (
            AppView {
                mode: v.mode.selecting(
                    if line > 10 {
                        (line - 10) as nat
                    } else {
                        0
                    },
                ),
                ..v
            },
            EffectView::Nothing,
        ),
        v.mode.selecting(line) == v.mode,
        forall|n: nat|
            (match (#[trigger] v.mode.selecting(n)) {
                ModeView::TagList { repo, tags, selected } => selected == n && v.mode is TagList
                    && repo == v.mode->TagList_repo && tags == v.mode->TagList_tags,
                ModeView::ActionMenu { repo, tag, tags, selected } => selected == n
                    && v.mode is ActionMenu && repo == v.mode->ActionMenu_repo && tag
                    == v.mode->tag && tags == v.mode->ActionMenu_tags,
                ModeView::RepoMenu { selected } => selected == n && v.mode is RepoMenu,
                _ => false,
            }),
{
}

/// In the results the keys move by one line or by ten, or to the first or the
/// last line, and never beyond them. Nothing else changes but the window.
pub proof fn law_moving_in_results(v: AppView)
    requires
        v.mode == ModeView::Normal,
        v.tab != Tab::Config,
        v.selected < v.visible.len(),
    ensures
        forall|action: Action|
            action == Action::MoveDown || action == Action::MoveUp || action == Action::PageDown
                || action == Action::PageUp || action == Action::JumpTop || action
                == Action::JumpBottom ==> {
                let (w, effect) = #[trigger] acted(v, action);
                &&& effect is Nothing
                &&& w == (AppView { selected: w.selected, scroll_start: w.scroll_start, ..v })
            },
        acted(v, Action::MoveDown).0.selected == (if v.selected + 1 < v.visible.len() {
            v.selected + 1
        } else {
            v.selected
        }),
        acted(v, Action::MoveUp).0.selected == (if v.selected > 0 {
            v.selected - 1
        } else {
            0
        }),
        acted(v, Action::PageDown).0.selected == (if v.selected + 10 < v.visible.len() {
            v.selected + 10
        } else {
            (v.visible.len() - 1) as nat
        }),
        acted(v, Action::PageUp).0.selected == (if v.selected > 10 {
            v.selected - 10
        } else {
            0
        }),
        acted(v, Action::JumpTop).0.selected == 0,
        acted(v, Action::JumpBottom).0.selected == v.visible.len() - 1,
{
}

/// In the settings the keys move by one row or by ten, and never beyond the
/// first or the last row. Nothing else changes.
pub proof fn law_moving_in_settings(v: AppView)
    requires
        v.mode == ModeView::Normal,
        v.tab == Tab::Config,
        v.selected < v.config_rows().len(),
    ensures
        acted(v, Action::MoveDown).0 == (AppView {
            selected: if v.selected + 1 < v.config_rows().len() {
                v.selected + 1
            } else {
                v.selected
            },
            ..v
        }),
        acted(v, Action::MoveUp).0 == (AppView {
            selected: if v.selected > 0 {
                (v.selected - 1) as nat
            } else {
                0
            },
            ..v
        }),
        acted(v, Action::PageDown).0 == (AppView {
            selected: if v.selected + 10 < v.config_rows().len() {
                v.selected + 10
            } else {
                (v.config_rows().len() - 1) as nat
            },
            ..v
        }),
        acted(v, Action::PageUp).0 == (AppView {
            selected: if v.selected > 10 {
                (v.selected - 10) as nat
            } else {
                0
            },
            ..v
        }),
{
}

// ---------------------------------------------------------------------------
// Typing, leaving, refreshing
// ---------------------------------------------------------------------------

/// A typed character is put behind the query, and the results are to be worked
/// out anew from the first line on; while a setting is edited it is put behind
/// the value instead, and the query stays.
pub proof fn law_typing(v: AppView, ch: char)
    ensures
        !(v.mode is ConfigEdit) ==> acted(v, Action::InsertChar(ch)) == (
            AppView {
                query: v.query + seq![ch],
                selected: 0,
                scroll_start: 0,
                dirty: true,
                ..v
            },
            EffectView::Nothing,
        ),
        v.mode matches ModeView::ConfigEdit { item_index, buffer } ==> acted(
            v,
            Action::InsertChar(ch),
        ) == (
            AppView {
                mode: ModeView::ConfigEdit { item_index, buffer: buffer + seq![ch] },
                ..v
            },
            EffectView::Nothing,
        ),
{
    assert(v.query.push(ch) =~= v.query + seq![ch]);
    if let ModeView::ConfigEdit { item_index, buffer } = v.mode {
        assert(buffer.push(ch) =~= buffer + seq![ch]);
    }
}

/// The program ends by the action for it, and by no other.
pub proof fn law_quitting(v: AppView, action: Action)
    ensures
        acted(v, action).1 is Quit <==> action == Action::Quit,
        acted(v, Action::Quit).0 == v,
{
}

/// Going back from a menu shows the results as they were. So does leaving the
/// menu of an image that has no tags; of one that has some, the tags are shown.
pub proof fn law_going_back(v: AppView)
    ensures
        acted(v, Action::BackToNormal).0 == (AppView {
            mode: ModeView::Normal,
            message: "Type to search."@,
            ..v
        }),
        acted(v, Action::CancelConfigEdit).0 == (AppView {
            mode: ModeView::Normal,
            message: "Config edit cancelled."@,
            ..v
        }),
        v.mode matches ModeView::ActionMenu { repo, tags, .. } ==> (if tags.len() == 0 {
            acted(v, Action::BackToTags).0.mode == ModeView::Normal
        } else {
            acted(v, Action::BackToTags).0 == (AppView {
                mode: ModeView::TagList { repo, tags, selected: 0 },
                ..v
            })
        }),
{
}

/// Asking for a refresh asks for that of the source whose tab is open, and says
/// so; on the configuration tab there is none. Nothing else changes.
pub proof fn law_asking_for_a_refresh(v: AppView)
    ensures
        ({
            let (w, effect) = acted(v, Action::RefreshCurrentTab);
            &&& w == (AppView { message: w.message, ..v })
            &&& v.tab == Tab::History ==> effect == EffectView::Refresh(RefreshRequest::History)
                && w.message == "Requested "@ + "History"@ + " refresh."@
            &&& v.tab == Tab::GitHub ==> effect == EffectView::Refresh(RefreshRequest::GitHub)
                && w.message == "Requested "@ + "GitHub"@ + " refresh."@
            &&& v.tab == Tab::GitLab ==> effect == EffectView::Refresh(RefreshRequest::GitLab)
                && w.message == "Requested "@ + "GitLab"@ + " refresh."@
            &&& v.tab == Tab::DockerHub ==> effect == EffectView::Refresh(
                RefreshRequest::DockerHub,
            ) && w.message == "Requested "@ + "DockerHub"@ + " refresh."@
            &&& v.tab == Tab::Config ==> effect is Nothing && w.message == "Config"@
                + " tab has no refresh."@
        }),
{
}

/// News of new entries put them in the place of those of their sources and
/// tell how many have come; other news are told. The query, the tab, the menu
/// and the configuration stay.
pub proof fn law_news(v: AppView, event: UiEvent)
    requires
        v.tab_enabled(v.tab),
    ensures
        ({
            let w = after_event(v, event);
            &&& w.query == v.query && w.tab == v.tab && w.mode == v.mode && w.config == v.config
            &&& match event {
                UiEvent::ReplaceSourceEntries { sources, entries } => w.entries == replaced(
                    v.entries,
                    texts(sources@),
                    views(entries@),
                ) && w.message == "Browser data refreshed ("@ + decimal(entries@.len())
                    + " items)."@,
                UiEvent::Status(message) => w == (AppView { message: message@, ..v }),
            }
        }),
{
    if let UiEvent::ReplaceSourceEntries { sources, entries } = event {
        lemma_recomputed_keeps(
            AppView { entries: replaced(v.entries, texts(sources@), views(entries@)), ..v },
        );
    }
}

// ---------------------------------------------------------------------------
// Settings
// ---------------------------------------------------------------------------

proof fn lemma_headings()
    ensures
        "Browser"@.len() == 7,
        "GitHub"@.len() == 6,
        "GitLab"@.len() == 6,
        "DockerHub"@.len() == 9,
        "System"@.len() == 6,
        "GitHub"@[3] == 'H',
        "GitLab"@[3] == 'L',
        "System"@[3] == 't',
        "Source"@.len() == 6,
        "Auth"@.len() == 4,
        "API"@.len() == 3,
        "Refresh"@.len() == 7,
        "Display"@.len() == 7,
        "Refresh"@[0] == 'R',
        "Display"@[0] == 'D',
        "Diagnostics"@.len() == 11,
        "Automation"@.len() == 10,
        "Enabled"@.len() == 7,
        "Token"@.len() == 5,
        "User"@.len() == 4,
        "Username"@.len() == 8,
        "Base URL"@.len() == 8,
        "Username"@[0] == 'U',
        "Base URL"@[0] == 'B',
        "Interval"@.len() == 8,
        "Interval"@[0] == 'I',
        "Preview pane"@.len() == 12,
        "Debug logging"@.len() == 13,
        "Token plan"@.len() == 10,
        "enabled"@.len() == 7,
        "disabled"@.len() == 8,
{
    reveal_strlit("Browser");
    reveal_strlit("GitHub");
    reveal_strlit("GitLab");
    reveal_strlit("DockerHub");
    reveal_strlit("System");
    reveal_strlit("Source");
    reveal_strlit("Auth");
    reveal_strlit("API");
    reveal_strlit("Refresh");
    reveal_strlit("Display");
    reveal_strlit("Diagnostics");
    reveal_strlit("Automation");
    reveal_strlit("Enabled");
    reveal_strlit("Token");
    reveal_strlit("User");
    reveal_strlit("Username");
    reveal_strlit("Base URL");
    reveal_strlit("Interval");
    reveal_strlit("Preview pane");
    reveal_strlit("Debug logging");
    reveal_strlit("Token plan");
    reveal_strlit("enabled");
    reveal_strlit("disabled");
}

/// Whether a setting stands under three headings.
pub open spec fn stands_at(item: ItemView, a: Seq<char>, b: Seq<char>, c: Seq<char>) -> bool {
    item.level1 == a && item.level2 == b && item.level3 == c
}

/// A switch switches what its headings name: a source in the configuration and
/// at once, the preview, or the debugging output. Nothing else of the
/// configuration changes.
pub proof fn law_switches(v: AppView, item: ItemView, on: bool)
    ensures
        stands_at(item, "Browser"@, "Source"@, "Enabled"@) ==> item_toggled(v, item, on).config == (
        ConfigView { include_browser: on, ..v.config }) && item_toggled(
            v,
            item,
            on,
        ).switches.browser == on,
        stands_at(item, "GitHub"@, "Source"@, "Enabled"@) ==> item_toggled(v, item, on).config == (
        ConfigView { include_github: on, ..v.config }) && item_toggled(v, item, on).switches.github
            == on,
        stands_at(item, "GitLab"@, "Source"@, "Enabled"@) ==> item_toggled(v, item, on).config == (
        ConfigView { include_gitlab: on, ..v.config }) && item_toggled(v, item, on).switches.gitlab
            == on,
        stands_at(item, "DockerHub"@, "Source"@, "Enabled"@) ==> item_toggled(v, item, on).config
            == (ConfigView { include_dockerhub: on, ..v.config }) && item_toggled(
            v,
            item,
            on,
        ).switches.dockerhub == on,
        stands_at(item, "System"@, "Display"@, "Preview pane"@) ==> item_toggled(v, item, on).config
            == (ConfigView { preview_enabled: on, ..v.config }),
        stands_at(item, "System"@, "Diagnostics"@, "Debug logging"@) ==> item_toggled(
            v,
            item,
            on,
        ).config == (ConfigView { debug: on, ..v.config }),
{
    lemma_headings();
}

/// A configuration with the switch at a place of the list turned on or off.
spec fn switched(config: ConfigView, i: int, on: bool) -> ConfigView {
    if i == 0 {
        ConfigView { include_browser: on, ..config }
    } else if i == 1 {
        ConfigView { include_github: on, ..config }
    } else if i == 2 {
        ConfigView { include_gitlab: on, ..config }
    } else if i == 3 {
        ConfigView { include_dockerhub: on, ..config }
    } else if i == 15 {
        ConfigView { preview_enabled: on, ..config }
    } else {
        ConfigView { debug: on, ..config }
    }
}

#[verifier::spinoff_prover]
#[verifier::rlimit(60)]
proof fn lemma_switch_is_shown(config: ConfigView, i: int, on: bool)
    requires
        0 <= i < config_items_of(config).len(),
        config_items_of(config)[i].edit_kind == ConfigEditKind::Toggle,
    ensures
        0 <= i < 4 || i == 15 || i == 16,
        config_items_of(switched(config, i, on)).len() == config_items_of(config).len(),
        config_items_of(config)[i].current == "enabled"@ || config_items_of(config)[i].current
            == "disabled"@,
        config_items_of(switched(config, i, on))[i].current == (if on {
            "enabled"@
        } else {
            "disabled"@
        }),
        forall|j: int|
            0 <= j < config_items_of(config).len() && j != i ==> #[trigger] config_items_of(
                switched(config, i, on),
            )[j] == config_items_of(config)[j],
{
    assert(config_items_of(config).len() == 18);
}

#[verifier::spinoff_prover]
#[verifier::rlimit(60)]
proof fn lemma_switch_headings(config: ConfigView)
    ensures
        ({
            let items = config_items_of(config);
            &&& items.len() == 18
            &&& stands_at(items[0], "Browser"@, "Source"@, "Enabled"@)
            &&& stands_at(items[1], "GitHub"@, "Source"@, "Enabled"@)
            &&& stands_at(items[2], "GitLab"@, "Source"@, "Enabled"@)
            &&& stands_at(items[3], "DockerHub"@, "Source"@, "Enabled"@)
            &&& stands_at(items[15], "System"@, "Display"@, "Preview pane"@)
            &&& stands_at(items[16], "System"@, "Diagnostics"@, "Debug logging"@)
        }),
{
}

proof fn lemma_toggled_items(v: AppView, item: ItemView, on: bool)
    ensures
        item_toggled(v, item, on).items == config_items_of(item_toggled(v, item, on).config),
{
}

proof fn lemma_toggle(v: AppView, i: nat, item: ItemView)
    requires
        item.edit_kind == ConfigEditKind::Toggle,
    ensures
        item_edited(v, i, item) == (
            item_toggled(v, item, item.current != "enabled"@),
            EffectView::ShareConfig { label: item_label(item), editing: false },
        ),
{
}

/// Editing a switch turns it over, as the settings show, and leaves every other
/// setting as it was. The change is shared.
#[verifier::spinoff_prover]
#[verifier::rlimit(60)]
pub proof fn law_editing_a_switch(v: AppView, i: int)
    requires
        v.items == config_items_of(v.config),
        0 <= i < v.items.len(),
        v.items[i].edit_kind == ConfigEditKind::Toggle,
    ensures
        ({
            let (w, effect) = item_edited(v, i as nat, v.items[i]);
            &&& effect == (EffectView::ShareConfig {
                label: item_label(v.items[i]),
                editing: false,
            })
            &&& w.items == config_items_of(w.config)
            &&& w.items.len() == v.items.len()
            &&& v.items[i].current == "enabled"@ ==> w.items[i].current == "disabled"@
            &&& v.items[i].current == "disabled"@ ==> w.items[i].current == "enabled"@
            &&& v.items[i].current == "enabled"@ || v.items[i].current == "disabled"@
            &&& forall|j: int|
                0 <= j < v.items.len() && j != i ==> #[trigger] w.items[j] == v.items[j]
        }),
{
    let item = v.items[i];
    let on = item.current != "enabled"@;
    assert("enabled"@ != "disabled"@) by {
        reveal_strlit("enabled");
        reveal_strlit("disabled");
        assert("enabled"@.len() != "disabled"@.len());
    }
    lemma_toggle(v, i as nat, item);
    lemma_toggled_items(v, item, on);
    lemma_switch_is_shown(v.config, i, on);
    lemma_switch_headings(v.config);
    law_switches(v, item, on);
    assert(item_toggled(v, item, on).config == switched(v.config, i, on));
}

/// A value is stored under the setting that its headings name, without the
/// white space around it: an empty token or name is none. An interval must be a
/// positive number of seconds. Nothing else of the configuration changes.
#[verifier::rlimit(30)]
pub proof fn law_values_are_stored(config: ConfigView, item: ItemView, value: Seq<char>)
    ensures
        ({
            let text = trim(value, Class::Space);
            let optional = if text.len() > 0 {
                Some(text)
            } else {
                None
            };
            let stored = item_set(config, item, value);
            &&& stands_at(item, "GitHub"@, "Auth"@, "Token"@) ==> stored == Ok::<
                ConfigView,
                Seq<char>,
            >(ConfigView { github_token: optional, ..config })
            &&& stands_at(item, "GitHub"@, "Auth"@, "User"@) ==> stored == Ok::<
                ConfigView,
                Seq<char>,
            >(ConfigView { github_user: optional, ..config })
            &&& stands_at(item, "GitLab"@, "Auth"@, "Token"@) ==> stored == Ok::<
                ConfigView,
                Seq<char>,
            >(ConfigView { gitlab_token: optional, ..config })
            &&& stands_at(item, "DockerHub"@, "Auth"@, "Token"@) ==> stored == Ok::<
                ConfigView,
                Seq<char>,
            >(ConfigView { dockerhub_token: optional, ..config })
            &&& stands_at(item, "DockerHub"@, "Auth"@, "Username"@) ==> stored == Ok::<
                ConfigView,
                Seq<char>,
            >(ConfigView { dockerhub_username: optional, ..config })
            &&& stands_at(item, "GitHub"@, "API"@, "Base URL"@) ==> stored == Ok::<
                ConfigView,
                Seq<char>,
            >(ConfigView { github_api: text, ..config })
            &&& stands_at(item, "GitLab"@, "API"@, "Base URL"@) ==> stored == Ok::<
                ConfigView,
                Seq<char>,
            >(ConfigView { gitlab_api: text, ..config })
            &&& item.level2 == "Refresh"@ && item.level3 == "Interval"@ && (item.level1
                == "Browser"@ || item.level1 == "GitHub"@ || item.level1 == "GitLab"@ || item.level1
                == "DockerHub"@) ==> (stored is Ok <==> interval_of(value) is Some)
            &&& interval_of(value) matches Some(n) ==> {
                &&& stands_at(item, "Browser"@, "Refresh"@, "Interval"@) ==> stored->Ok_0 == (
                ConfigView { history_refresh_interval: n, ..config })
                &&& stands_at(item, "GitHub"@, "Refresh"@, "Interval"@) ==> stored->Ok_0 == (
                ConfigView { github_refresh_interval: n, ..config })
                &&& stands_at(item, "GitLab"@, "Refresh"@, "Interval"@) ==> stored->Ok_0 == (
                ConfigView { gitlab_refresh_interval: n, ..config })
                &&& stands_at(item, "DockerHub"@, "Refresh"@, "Interval"@) ==> stored->Ok_0 == (
                ConfigView { dockerhub_refresh_interval: n, ..config })
            }
        }),
{
    lemma_headings();
}

/// A value that is accepted is shown by the setting that was edited, and every
/// other setting is shown as before: a token as present or missing, an interval
/// in minutes or seconds, anything else as it was entered.
#[verifier::rlimit(60)]
pub proof fn law_stored_values_are_shown(config: ConfigView, i: int, value: Seq<char>)
    requires
        0 <= i < config_items_of(config).len(),
        config_items_of(config)[i].edit_kind == ConfigEditKind::Text || config_items_of(
            config,
        )[i].edit_kind == ConfigEditKind::Secret,
        item_set(config, config_items_of(config)[i], value) is Ok,
    ensures
        ({
            let item = config_items_of(config)[i];
            let text = trim(value, Class::Space);
            let shown = config_items_of(item_set(config, item, value)->Ok_0);
            &&& shown.len() == config_items_of(config).len()
            &&& forall|j: int|
                0 <= j < shown.len() && j != i ==> #[trigger] shown[j] == config_items_of(config)[j]
            &&& item.edit_kind == ConfigEditKind::Secret ==> shown[i].current == (if text.len()
                > 0 {
                "present"@
            } else {
                "missing"@
            })
            &&& item.edit_kind == ConfigEditKind::Text && item.level2 == "Refresh"@
                ==> interval_of(value) is Some && shown[i].current == interval_text(
                interval_of(value)->0,
            )
            &&& item.edit_kind == ConfigEditKind::Text && item.level2 == "API"@ ==> shown[i].current
                == text
            &&& item.edit_kind == ConfigEditKind::Text && item.level2 == "Auth"@
                ==> shown[i].current == (if text.len() > 0 {
                text
            } else {
                "not set"@
            })
        }),
{
    lemma_headings();
    let items = config_items_of(config);
    assert(items.len() == 18);
    law_values_are_stored(config, items[i], value);
}

/// Accepting the edited setting stores its value, lists the settings anew and
/// shares the change; a value that is refused stores nothing.
pub proof fn law_accepting_an_edit(v: AppView, i: nat, value: Seq<char>)
    requires
        v.mode == (ModeView::ConfigEdit { item_index: i, buffer: value }),
        i < v.items.len(),
        v.items[i as int].edit_kind == ConfigEditKind::Text || v.items[i as int].edit_kind
            == ConfigEditKind::Secret,
    ensures
        ({
            let (w, effect) = acted(v, Action::CommitConfigEdit);
            match item_set(v.config, v.items[i as int], trim(value, Class::Space)) {
                Ok(config) => w == (AppView { config, items: config_items_of(config), ..v })
                    && effect == (EffectView::ShareConfig {
                    label: item_label(v.items[i as int]),
                    editing: true,
                }),
                Err(err) => w == (AppView { message: err, ..v }) && effect is Nothing,
            }
        }),
{
}

/// Editing a text starts with the value that is shown, with nothing where none
/// is set, and editing a token with nothing. A note cannot be edited.
pub proof fn law_starting_an_edit(v: AppView, i: nat, item: ItemView)
    ensures
        item.edit_kind == ConfigEditKind::Text ==> item_edited(v, i, item) == (
            AppView {
                mode: ModeView::ConfigEdit {
                    item_index: i,
                    buffer: if item.current == "not set"@ {
                        seq![]
                    } else {
                        item.current
                    },
                },
                ..v
            },
            EffectView::Nothing,
        ),
        item.edit_kind == ConfigEditKind::Secret ==> item_edited(v, i, item).0.mode == (
        ModeView::ConfigEdit { item_index: i, buffer: seq![] }) && item_edited(v, i, item).1
            is Nothing,
        item.edit_kind == ConfigEditKind::ReadOnly ==> item_edited(v, i, item) == (
            AppView { message: "This config item is informational."@, ..v },
            EffectView::Nothing,
        ),
{
}

// ---------------------------------------------------------------------------
// Keys
// ---------------------------------------------------------------------------

/// What a key does depends on the mode: Enter opens, chooses, confirms or
/// saves, characters are typed where text is entered, and the escape key ends
/// the program only where no menu is open.
pub proof fn law_pressing(v: AppView, ch: char)
    ensures
        pressed(v, plain_key(InputCode::Enter)) == acted(
            v,
            match v.mode {
                ModeView::Normal => Action::OpenSelected,
                ModeView::TagList { .. } => Action::SelectTag,
                ModeView::ActionMenu { .. } => Action::ConfirmDockerAction,
                ModeView::RepoMenu { .. } => Action::ConfirmRepoAction,
                ModeView::ConfigEdit { .. } => Action::CommitConfigEdit,
            },
        ),
        v.mode is Normal || v.mode is ConfigEdit ==> pressed(v, plain_key(InputCode::Char(ch)))
            == acted(v, Action::InsertChar(ch)),
        v.mode is Normal ==> pressed(v, plain_key(InputCode::Esc)) == (v, EffectView::Quit),
        !(v.mode is Normal) ==> !(pressed(v, plain_key(InputCode::Esc)).1 is Quit),
        !(v.mode is ConfigEdit) ==> pressed(v, plain_key(InputCode::Down)) == acted(
            v,
            Action::MoveDown,
        ) && pressed(v, plain_key(InputCode::Up)) == acted(v, Action::MoveUp),
        v.mode is Normal ==> pressed(v, ctrl_key('r')) == acted(v, Action::RefreshCurrentTab),
{
    let kind = v.mode.kind();
    law_enter_is_not_ctrl_j(kind);
    law_characters_are_typed(kind, ch);
    law_quitting(v, Action::BackToNormal);
    law_quitting(v, Action::BackToTags);
    law_quitting(v, Action::CancelConfigEdit);
    if kind != AppModeKind::ConfigEdit {
        law_named_keys_in_all_lists(kind);
    }
    law_keys_of_the_results(kind, ctrl_key('r'));
    law_keys_of_the_menus(plain_key(InputCode::Esc));
    law_only_escape_quits(kind, plain_key(InputCode::Esc));
}

/// Enter on an image, on one of its tags and on the second line of the menu
/// copies the command that pulls this tag of this image.
#[verifier::spinoff_prover]
#[verifier::rlimit(60)]
pub proof fn law_keys_that_pull_a_tag(v: AppView, entry: EntryView, k: nat)
    requires
        v.tab != Tab::Config,
        v.mode == ModeView::Normal,
        is_selected(v, entry),
        entry.source == "public"@ || entry.source == "private"@,
        k < tags_of(entry.detail).len(),
    ensures
        ({
            let enter = plain_key(InputCode::Enter);
            let list = pressed(v, enter).0;
            let menu = pressed(AppView { mode: list.mode.selecting(k), ..list }, enter).0;
            let second = pressed(menu, plain_key(InputCode::Down)).0;
            &&& pressed(menu, enter).1 == EffectView::Browse(
                "https://hub.docker.com/r/"@ + entry.title + "/tags?name="@ + tags_of(
                    entry.detail,
                )[k as int],
            )
            &&& pressed(second, enter).1 == EffectView::Copy(
                "docker pull "@ + entry.title + ":"@ + tags_of(entry.detail)[k as int],
            )
        }),
{
    if entry.source == "github"@ || entry.source == "gitlab"@ {
        lemma_kinds(entry.source);
    }
    let enter = plain_key(InputCode::Enter);
    let tags = tags_of(entry.detail);
    let tag = tags[k as int];
    law_pressing(v, ' ');
    law_opening(v, entry);
    let list = pressed(v, enter).0;
    assert(list.mode == (ModeView::TagList { repo: entry.title, tags, selected: 0 }));
    let at = AppView { mode: list.mode.selecting(k), ..list };
    law_pressing(at, ' ');
    lemma_opened(at);
    let menu = pressed(at, enter).0;
    assert(menu.mode == (ModeView::ActionMenu {
        repo: entry.title,
        tag: Some(tag),
        tags,
        selected: 0,
    }));
    law_pressing(menu, ' ');
    lemma_opened(menu);
    let second = pressed(menu, plain_key(InputCode::Down)).0;
    assert(second.mode == (ModeView::ActionMenu {
        repo: entry.title,
        tag: Some(tag),
        tags,
        selected: 1,
    }));
    law_pressing(second, ' ');
    law_docker_menu(menu, entry.title, Some(tag));
    law_docker_menu(second, entry.title, Some(tag));
}

/// Enter on a repository, and Enter on the first line of its menu, opens its
/// address; on the second line it copies the address. Enter on anything from a
/// browser opens it at once.
#[verifier::spinoff_prover]
#[verifier::rlimit(60)]
pub proof fn law_keys_that_open(v: AppView, entry: EntryView)
    requires
        v.tab != Tab::Config,
        v.mode == ModeView::Normal,
        is_selected(v, entry),
    ensures
        ({
            let enter = plain_key(InputCode::Enter);
            let open = EffectView::Open { url: entry.url, title: entry.title };
            let menu = pressed(v, enter).0;
            let second = pressed(menu, plain_key(InputCode::Down)).0;
            &&& entry.source == "github"@ || entry.source == "gitlab"@ ==> pressed(menu, enter).1
                == open && pressed(second, enter).1 == EffectView::Copy(entry.url)
            &&& entry.source == "history"@ || entry.source == "browser-history"@ || entry.source
                == "bookmark"@ ==> pressed(v, enter) == (v, open)
        }),
{
    let enter = plain_key(InputCode::Enter);
    lemma_browser_kinds(entry.source);
    law_pressing(v, ' ');
    law_opening(v, entry);
    let menu = pressed(v, enter).0;
    if entry.source == "github"@ || entry.source == "gitlab"@ {
        assert(menu.mode == (ModeView::RepoMenu { selected: 0 }));
        law_pressing(menu, ' ');
        lemma_opened(menu);
        let second = pressed(menu, plain_key(InputCode::Down)).0;
        assert(second.mode == (ModeView::RepoMenu { selected: 1 }));
        law_pressing(second, ' ');
        law_repo_menu(menu, entry);
        law_repo_menu(second, entry);
    }
}

proof fn lemma_browser_kinds(source: Seq<char>)
    ensures
        source == "history"@ || source == "browser-history"@ || source == "bookmark"@ ==> source
            != "github"@ && source != "gitlab"@ && source != "public"@ && source != "private"@,
{
    reveal_strlit("history");
    reveal_strlit("browser-history");
    reveal_strlit("bookmark");
    reveal_strlit("public");
    reveal_strlit("private");
    reveal_strlit("github");
    reveal_strlit("gitlab");
    assert("history"@.len() == 7 && "browser-history"@.len() == 15 && "bookmark"@.len() == 8);
    assert("public"@.len() == 6 && "private"@.len() == 7);
    assert("github"@.len() == 6 && "gitlab"@.len() == 6);
    assert("history"@[0] != "private"@[0]);
}

// ---------------------------------------------------------------------------
// The list of settings
// ---------------------------------------------------------------------------

/// What can be set, under which headings, and how.
#[verifier::spinoff_prover]
#[verifier::rlimit(60)]
pub proof fn law_list_of_settings(config: ConfigView)
    ensures
        ({
            let items = config_items_of(config);
            &&& items.len() == 18
            &&& stands_at(items[0], "Browser"@, "Source"@, "Enabled"@) && items[0].edit_kind
                == ConfigEditKind::Toggle
            &&& stands_at(items[1], "GitHub"@, "Source"@, "Enabled"@) && items[1].edit_kind
                == ConfigEditKind::Toggle
            &&& stands_at(items[2], "GitLab"@, "Source"@, "Enabled"@) && items[2].edit_kind
                == ConfigEditKind::Toggle
            &&& stands_at(items[3], "DockerHub"@, "Source"@, "Enabled"@) && items[3].edit_kind
                == ConfigEditKind::Toggle
            &&& stands_at(items[4], "GitHub"@, "Auth"@, "Token"@) && items[4].edit_kind
                == ConfigEditKind::Secret
            &&& stands_at(items[5], "GitHub"@, "Auth"@, "User"@) && items[5].edit_kind
                == ConfigEditKind::Text
            &&& stands_at(items[6], "GitLab"@, "Auth"@, "Token"@) && items[6].edit_kind
                == ConfigEditKind::Secret
            &&& stands_at(items[7], "DockerHub"@, "Auth"@, "Token"@) && items[7].edit_kind
                == ConfigEditKind::Secret
            &&& stands_at(items[8], "DockerHub"@, "Auth"@, "Username"@) && items[8].edit_kind
                == ConfigEditKind::Text
            &&& stands_at(items[9], "GitHub"@, "API"@, "Base URL"@) && items[9].edit_kind
                == ConfigEditKind::Text
            &&& stands_at(items[10], "GitLab"@, "API"@, "Base URL"@) && items[10].edit_kind
                == ConfigEditKind::Text
            &&& stands_at(items[11], "Browser"@, "Refresh"@, "Interval"@) && items[11].edit_kind
                == ConfigEditKind::Text
            &&& stands_at(items[12], "GitHub"@, "Refresh"@, "Interval"@) && items[12].edit_kind
                == ConfigEditKind::Text
            &&& stands_at(items[13], "GitLab"@, "Refresh"@, "Interval"@) && items[13].edit_kind
                == ConfigEditKind::Text
            &&& stands_at(items[14], "DockerHub"@, "Refresh"@, "Interval"@) && items[14].edit_kind
                == ConfigEditKind::Text
            &&& stands_at(items[15], "System"@, "Display"@, "Preview pane"@) && items[15].edit_kind
                == ConfigEditKind::Toggle
            &&& stands_at(items[16], "System"@, "Diagnostics"@, "Debug logging"@) && items[16].edit_kind
                == ConfigEditKind::Toggle
            &&& stands_at(items[17], "System"@, "Automation"@, "Token plan"@) && items[17].edit_kind
                == ConfigEditKind::ReadOnly
        }),
{
}

/// A setting shows the value that the configuration has for it.
#[verifier::spinoff_prover]
#[verifier::rlimit(60)]
pub proof fn law_shown_values(config: ConfigView)
    ensures
        ({
            let items = config_items_of(config);
            &&& items[0].current == (if config.include_browser {
                "enabled"@
            } else {
                "disabled"@
            })
            &&& items[1].current == (if config.include_github {
                "enabled"@
            } else {
                "disabled"@
            })
            &&& items[2].current == (if config.include_gitlab {
                "enabled"@
            } else {
                "disabled"@
            })
            &&& items[3].current == (if config.include_dockerhub {
                "enabled"@
            } else {
                "disabled"@
            })
            &&& items[9].current == config.github_api
            &&& items[10].current == config.gitlab_api
            &&& items[11].current == interval_text(config.history_refresh_interval)
            &&& items[12].current == interval_text(config.github_refresh_interval)
            &&& items[13].current == interval_text(config.gitlab_refresh_interval)
            &&& items[14].current == interval_text(config.dockerhub_refresh_interval)
        }),
{
}

/// Whole minutes are shown in minutes, anything else in seconds.
pub proof fn law_shown_intervals(seconds: u64, minutes: u64)
    requires
        minutes * 60 == seconds,
        minutes > 0,
    ensures
        interval_text(seconds) == decimal(minutes as nat) + "min"@,
        forall|n: u64|
            n % 60 != 0 || n < 60 ==> #[trigger] interval_text(n) == decimal(n as nat) + "s"@,
{
}

/// A setting is found by its headings, its value, the way to set it, and what
/// is said about it.
pub proof fn law_settings_are_found_by(
    a: Seq<char>,
    b: Seq<char>,
    c: Seq<char>,
    value: Seq<char>,
    way: Seq<char>,
    detail: Seq<char>,
    kind: ConfigEditKind,
)
    ensures
        item_of(a, b, c, value, way, detail, kind).haystack == a.push(' ') + b.push(' ') + c.push(
            ' ',
        ) + value.push(' ') + way.push(' ') + detail,
        item_label(item_of(a, b, c, value, way, detail, kind)) == a + " / "@ + b + " / "@ + c,
{
    reveal_strlit(" ");
    assert(" "@ =~= seq![' ']);
    assert(item_of(a, b, c, value, way, detail, kind).haystack =~= a.push(' ') + b.push(' ')
        + c.push(' ') + value.push(' ') + way.push(' ') + detail);
}

/// Enter on the configuration tab edits the setting in the selected row; on a
/// heading it says that a setting has to be selected.
pub proof fn law_opening_a_setting(v: AppView)
    requires
        v.tab == Tab::Config,
    ensures
        v.selected < v.config_rows().len() ==> (match v.config_rows()[v.selected as int] {
            RowView::Item(i) => acted(v, Action::OpenSelected) == item_edited(
                v,
                i as nat,
                v.items[i as int],
            ),
            RowView::Group(_) => acted(v, Action::OpenSelected) == (
                AppView { message: "Select an indented config item to edit."@, ..v },
                EffectView::Nothing,
            ),
        }),
        v.selected >= v.config_rows().len() ==> acted(v, Action::OpenSelected) == (
            AppView { message: "Select an indented config item to edit."@, ..v },
            EffectView::Nothing,
        ),
{
}

/// After a change has been shared the user is told which setting it was. The
/// editor is closed, or, for a switch, the results are worked out anew.
pub proof fn law_after_sharing(v: AppView, label: Seq<char>)
    ensures
        after_sharing(v, label, true) == (AppView {
            mode: ModeView::Normal,
            message: "Updated "@ + label + "."@,
            ..v
        }),
        after_sharing(v, label, false) == (AppView {
            message: "Updated "@ + label + "."@,
            ..v
        }).recomputed(),
{
}

/// The configuration tab is opened when it is shown. When it is hidden, the tab
/// that is open stays open; if it was the configuration, the history is opened
/// where it is shown.
pub proof fn law_showing_the_configuration(v: AppView)
    ensures
        ({
            let w = acted(v, Action::ToggleConfigTab).0;
            &&& w.query == v.query && w.entries == v.entries && w.config == v.config
            &&& w.mode == ModeView::Normal
            &&& w.config_tab_visible == !v.config_tab_visible
            &&& !v.config_tab_visible ==> w.tab == Tab::Config && w.message
                == "Config tab shown."@
            &&& v.config_tab_visible ==> w.message == "Config tab hidden."@
            &&& v.config_tab_visible && v.tab != Tab::Config && v.tab_enabled(v.tab) ==> w.tab
                == v.tab
            &&& v.config_tab_visible && v.tab == Tab::Config && v.switches.browser ==> w.tab
                == Tab::History
        }),
{
    let shown = !v.config_tab_visible;
    let start = AppView {
        config_tab_visible: shown,
        mode: ModeView::Normal,
        tab: if shown {
            Tab::Config
        } else if v.tab == Tab::Config {
            Tab::History
        } else {
            v.tab
        },
        message: if shown {
            "Config tab shown."@
        } else {
            "Config tab hidden."@
        },
        selected: 0,
        scroll_start: 0,
        ..v
    };
    lemma_recomputed_keeps(start.on_shown_tab());
    lemma_shown_config(v);
}

proof fn lemma_shown_config(v: AppView)
    ensures
        acted(v, Action::ToggleConfigTab).0 == v.config_tab_toggled(),
{
}

} // verus!
