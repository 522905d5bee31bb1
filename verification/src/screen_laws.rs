//! What holds of what is shown.
use crate::config_items::ConfigEditKind;
use crate::config_rows::RowView;
use crate::layout::{columns, cut_to, filled};
use crate::models::EntryView;
use crate::repos::{detail_with_tags, law_tags_come_back, plain_tag};
use crate::screen::{body_of, cursor_at, help_for, masked, result_rows_of};
use crate::screen::{result_widths, setting_rows_of, setting_widths};
use crate::screen::{settings_window, shown_detail, source_ink, tab_ink, BodyView, Ink};
use crate::screen::{editor_of, law_masks_are_alike, preview_of, SettingRowView};
use crate::state::{AppView, ModeView};
use crate::tabs::Tab;
use crate::text::has_text;
use vstd::prelude::*;
use vstd::string::*;

verus! {

/// Every source has its colour, and every tab.
pub proof fn law_colours(source: Seq<char>)
    ensures
        source == "github"@ ==> source_ink(source) == Ink::Magenta,
        source == "gitlab"@ ==> source_ink(source) == Ink::Yellow,
        source == "bookmark"@ ==> source_ink(source) == Ink::Blue,
        source == "public"@ ==> source_ink(source) == Ink::Cyan,
        source == "private"@ ==> source_ink(source) == Ink::Red,
        source == "history"@ || source == "browser-history"@ ==> source_ink(source) == Ink::Green,
        tab_ink(Tab::History) == Ink::Green,
        tab_ink(Tab::GitHub) == Ink::Magenta,
        tab_ink(Tab::GitLab) == Ink::Yellow,
        tab_ink(Tab::DockerHub) == Ink::Blue,
        tab_ink(Tab::Config) == Ink::Cyan,
{
    reveal_strlit("history");
    reveal_strlit("browser-history");
    reveal_strlit("bookmark");
    reveal_strlit("public");
    reveal_strlit("private");
    reveal_strlit("github");
    reveal_strlit("gitlab");
    assert("history"@.len() == 7 && "browser-history"@.len() == 15 && "bookmark"@.len() == 8);
    assert("public"@.len() == 6 && "private"@.len() == 7);
    assert("github"@.len() == 6 && "gitlab"@.len() == 6);
    assert("history"@[0] != "private"@[0]);
    assert("public"@[0] != "github"@[0]);
    assert("public"@[0] != "gitlab"@[0]);
    assert("github"@[3] != "gitlab"@[3]);
}

/// Of an image its description is shown, without the tags that are kept behind
/// it; of anything else the whole detail.
pub proof fn law_tags_are_not_shown(e: EntryView, description: Seq<char>, tags: Seq<Seq<char>>)
    requires
        !has_text(description, "\nWEB_FZF_TAGS\t"@),
        forall|k: int| 0 <= k < tags.len() ==> plain_tag(#[trigger] tags[k]),
        e.detail == detail_with_tags(description, tags),
    ensures
        e.source == "public"@ || e.source == "private"@ ==> shown_detail(e) == description,
        e.source != "public"@ && e.source != "private"@ ==> shown_detail(e) == e.detail,
{
    law_tags_come_back(description, tags);
}

/// The lines of the results are those of the entries in the window, one for
/// each and in their order: title, source in its colour, and every other one
/// shaded.
pub proof fn law_result_lines(v: AppView, width: nat, i: int)
    requires
        0 <= i < v.window().len(),
    ensures
        ({
            let rows = result_rows_of(v, width);
            let e = v.entries[v.window()[i] as int];
            &&& rows.len() == v.window().len()
            &&& rows[i].name == filled(e.title, result_widths(v.tab, width).0)
            &&& rows[i].kind == filled(e.source, 14)
            &&& rows[i].ink == source_ink(e.source)
            &&& rows[i].odd <==> i % 2 == 1
            &&& v.tab != Tab::Config ==> rows[i].detail is None
        }),
{
}

/// Beside the title there is room for the source and two columns between them,
/// in a frame that is wide enough.
pub proof fn law_result_columns(tab: Tab, width: nat)
    requires
        tab != Tab::Config,
        width >= 20,
    ensures
        result_widths(tab, width).0 + 2 + 14 + 4 == width,
        result_widths(tab, width).1 == 0,
{
}

/// A text that is narrower than its column is followed by spaces up to its end;
/// one that fits just so stays as it is.
pub proof fn law_filling(text: Seq<char>, width: nat)
    ensures
        columns(text) < width ==> text.is_prefix_of(filled(text, width)) && filled(
            text,
            width,
        ).len() == text.len() + width - columns(text) && (forall|i: int|
            text.len() <= i < filled(text, width).len() ==> #[trigger] filled(text, width)[i]
                == ' '),
        columns(text) == width ==> filled(text, width) == text,
        columns(text) <= width ==> cut_to(text, width) == text,
{
    if columns(text) < width {
        assert(text =~= filled(text, width).take(text.len() as int));
    }
}

/// The cursor stands behind the query, inside the frame.
pub proof fn law_cursor(x: nat, width: nat, query: nat)
    requires
        x + width <= 65535,
        width >= 2,
    ensures
        query < width - 2 ==> cursor_at(x, width, query) == x + 1 + query,
        x < cursor_at(x, width, query) < x + width,
{
}

/// In the middle of the screen stands what the mode asks for: the tags, the
/// menu with the name of what it is for, the editor, the settings, or the
/// results, with the preview where it is switched on.
pub proof fn law_body(v: AppView)
    ensures
        v.mode matches ModeView::TagList { repo, tags, selected } ==> body_of(v) == (
        BodyView::Tags { repo, tags, selected }),
        v.mode matches ModeView::ActionMenu { repo, tag, selected, .. } ==> (v.selected
            < v.visible.len() && v.visible[v.selected as int] < v.entries.len() ==> body_of(v) == (
        BodyView::Menu {
            title: match tag {
                Some(tag) => "Action: "@ + (repo + ":"@ + tag),
                None => "Action: "@ + repo,
            },
            labels: seq!["Open in browser", "Copy docker pull command"],
            selected,
        })),
        v.mode matches ModeView::RepoMenu { selected } ==> (v.selected < v.visible.len()
            && v.visible[v.selected as int] < v.entries.len() ==> body_of(v) == (BodyView::Menu {
            title: "Action: "@ + v.entries[v.visible[v.selected as int] as int].title,
            labels: seq!["Open in browser", "Copy repository address"],
            selected,
        })),
        v.mode is ConfigEdit ==> body_of(v) is Editor,
        v.mode is Normal && v.tab == Tab::Config ==> body_of(v) is Config,
        v.mode is Normal && v.tab != Tab::Config ==> (if v.config.preview_enabled {
            body_of(v) is ResultsAndPreview
        } else {
            body_of(v) is Results
        }),
{
}

/// The rows of the settings show the headings, and each setting with its group,
/// its name, its value and what is said about it; every other row is shaded.
pub proof fn law_setting_rows(v: AppView, width: nat, height: nat, k: int)
    requires
        height >= 2,
        0 <= k < settings_window(v.config_rows(), v.selected, (height - 2) as nat).len(),
    ensures
        ({
            let rows = setting_rows_of(v, width, height);
            let window = settings_window(v.config_rows(), v.selected, (height - 2) as nat);
            let (group, name, value, detail) = setting_widths(width);
            &&& rows.len() == window.len()
            &&& rows[k] == (match window[k] {
                RowView::Group(heading) => SettingRowView::Heading {
                    text: filled("▼ "@ + heading, group),
                    note: "contains configurable items"@,
                    odd: k % 2 == 1,
                },
                RowView::Item(i) => SettingRowView::Setting {
                    group: filled("    "@ + v.items[i as int].level2, group),
                    name: filled(v.items[i as int].level3, name),
                    value: filled(v.items[i as int].current, value),
                    detail: cut_to(v.items[i as int].detail, detail),
                    odd: k % 2 == 1,
                },
            })
        }),
{
}

/// The columns of the settings, with two columns between them, fill the frame.
pub proof fn law_setting_columns(width: nat)
    requires
        width >= 62,
    ensures
        ({
            let (group, name, value, detail) = setting_widths(width);
            &&& group + 2 + name + 2 + value + 2 + detail == width - 2
            &&& 12 <= group <= 18 && 10 <= name <= 18 && 9 <= value <= 18
        }),
{
}

/// A secret is shown as stars, one for each character.
pub proof fn law_secrets_are_masked(secret: Seq<char>, i: int)
    ensures
        masked(secret).len() == secret.len(),
        0 <= i < secret.len() ==> masked(secret)[i] == '*',
{
}

/// The help names what the Enter key does in each mode.
pub proof fn law_help(v: AppView)
    ensures
        v.mode is TagList ==> help_for(v)
            == "Up/Down=move  Ctrl+U/D=page  Enter=select  Backspace=back"@,
        v.mode is ActionMenu || v.mode is RepoMenu ==> help_for(v)
            == "Up/Down=move  Ctrl+U/D=page  Enter=confirm  Backspace=back"@,
        v.mode is ConfigEdit ==> help_for(v)
            == "Type=value  Enter=save  Esc=cancel  Backspace=delete"@,
        v.mode is Normal && v.tab == Tab::Config ==> help_for(v)
            == "Up/Down=select  Enter=edit/toggle  Type=filter  Ctrl+B=hide Config  Esc=quit"@,
        v.mode is Normal && v.tab != Tab::Config && v.query.len() == 0 ==> help_for(v)
            == "Enter=open  Ctrl+U/D=page  Ctrl+R=refresh tab  Ctrl+B=toggle Config  Esc=quit"@,
        v.mode is Normal && v.tab != Tab::Config && v.query.len() > 0 ==> help_for(v)
            == "Type=fuzzy filter  Ctrl+U/D=page  Enter=open  Ctrl+B=toggle Config  Esc=quit"@,
{
}

/// The editor shows what has been typed, but of a token only how long it is:
/// two tokens of the same length look the same.
pub proof fn law_editor(v: AppView, w: AppView, i: nat, a: Seq<char>, b: Seq<char>)
    requires
        v.mode == (ModeView::ConfigEdit { item_index: i, buffer: a }),
        w == (AppView { mode: ModeView::ConfigEdit { item_index: i, buffer: b }, ..v }),
        i < v.items.len(),
    ensures
        editor_of(v) matches Some((path, value)) && path == v.items[i as int].level1 + " / "@
            + v.items[i as int].level2 + " / "@ + v.items[i as int].level3 && value.len() == a.len()
            && (v.items[i as int].edit_kind != ConfigEditKind::Secret ==> value == a),
        v.items[i as int].edit_kind == ConfigEditKind::Secret && a.len() == b.len() ==> editor_of(v)
            == editor_of(w),
{
    if a.len() == b.len() {
        law_masks_are_alike(a, b);
    }
}

/// The preview tells title, address, source and detail of the entry on the
/// selected line.
pub proof fn law_preview(v: AppView)
    ensures
        v.selected >= v.visible.len() ==> preview_of(v).len() == 0,
        v.selected < v.visible.len() && v.visible[v.selected as int] < v.entries.len() ==> {
            let e = v.entries[v.visible[v.selected as int] as int];
            &&& preview_of(v).len() == 4
            &&& preview_of(v)[0] == ("Title"@, e.title, Ink::White)
            &&& preview_of(v)[1] == ("URL"@, e.url, Ink::Blue)
            &&& preview_of(v)[2] == ("Source"@, e.source, source_ink(e.source))
            &&& preview_of(v)[3] == ("Detail"@, shown_detail(e), Ink::Gray)
        },
{
}

} // verus!
