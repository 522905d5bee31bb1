//! What a key does in each mode.
use crate::input::{ctrl_key, plain_key, InputCode, InputKey};
use vstd::prelude::*;

verus! {

#[derive(Clone, Copy, Debug, PartialEq, Eq, Structural)]
pub enum AppModeKind {
    Normal,
    TagList,
    ActionMenu,
    RepoMenu,
    ConfigEdit,
}

#[derive(Clone, Copy, Debug, PartialEq, Eq, Structural)]
pub enum Action {
    Quit,
    OpenSelected,
    MoveUp,
    MoveDown,
    PageUp,
    PageDown,
    JumpTop,
    JumpBottom,
    PreviousTab,
    NextTab,
    ToggleConfigTab,
    RefreshCurrentTab,
    Backspace,
    InsertChar(char),
    BackToNormal,
    SelectTag,
    BackToTags,
    ConfirmDockerAction,
    ConfirmRepoAction,
    CommitConfigEdit,
    CancelConfigEdit,
}

/// Keys that page and change tabs alike in the results and in the menus.
pub open spec fn common_action(key: InputKey) -> Option<Action> {
    if key == ctrl_key('u') || key.code == InputCode::PageUp {
        Some(Action::PageUp)
    } else if key == ctrl_key('d') || key.code == InputCode::PageDown {
        Some(Action::PageDown)
    } else if key == ctrl_key('h') || key.code == InputCode::Left {
        Some(Action::PreviousTab)
    } else if key == ctrl_key('l') || key.code == InputCode::Right || key.code == InputCode::Tab {
        Some(Action::NextTab)
    } else if key == ctrl_key('k') || key == ctrl_key('p') {
        Some(Action::MoveUp)
    } else if key == ctrl_key('j') || key == ctrl_key('n') {
        Some(Action::MoveDown)
    } else {
        None
    }
}

/// What a key does in the list of results.
pub open spec fn normal_action(key: InputKey) -> Option<Action> {
    match key.code {
        InputCode::Esc => Some(Action::Quit),
        InputCode::Enter => Some(Action::OpenSelected),
        InputCode::Backspace => Some(Action::Backspace),
        InputCode::Up => Some(Action::MoveUp),
        InputCode::Down => Some(Action::MoveDown),
        InputCode::Home => Some(Action::JumpTop),
        InputCode::End => Some(Action::JumpBottom),
        InputCode::Char(c) => if !key.ctrl {
            Some(Action::InsertChar(c))
        } else if c == 'r' {
            Some(Action::RefreshCurrentTab)
        } else if c == 'b' {
            Some(Action::ToggleConfigTab)
        } else {
            common_action(key)
        },
        _ => common_action(key),
    }
}

/// What a key does in a menu that is left and confirmed by the given actions.
pub open spec fn menu_action(key: InputKey, back: Action, confirm: Action) -> Option<Action> {
    if key.code == InputCode::Esc || key.code == InputCode::Backspace {
        Some(back)
    } else if key.code == InputCode::Enter {
        Some(confirm)
    } else if !key.ctrl && (key.code == InputCode::Up || key.code == InputCode::Char('k')) {
        Some(Action::MoveUp)
    } else if !key.ctrl && (key.code == InputCode::Down || key.code == InputCode::Char('j')) {
        Some(Action::MoveDown)
    } else {
        common_action(key)
    }
}

/// What a key does while a setting is edited.
pub open spec fn edit_action(key: InputKey) -> Option<Action> {
    match key.code {
        InputCode::Esc => Some(Action::CancelConfigEdit),
        InputCode::Enter => Some(Action::CommitConfigEdit),
        InputCode::Backspace => Some(Action::Backspace),
        InputCode::Char(c) => if key.ctrl {
            None
        } else {
            Some(Action::InsertChar(c))
        },
        _ => None,
    }
}

/// What a key does in a mode.
pub open spec fn resolved(mode: AppModeKind, key: InputKey) -> Option<Action> {
    match mode {
        AppModeKind::Normal => normal_action(key),
        AppModeKind::TagList => menu_action(key, Action::BackToNormal, Action::SelectTag),
        AppModeKind::ActionMenu => menu_action(
            key,
            Action::BackToTags,
            Action::ConfirmDockerAction,
        ),
        AppModeKind::RepoMenu => menu_action(key, Action::BackToNormal, Action::ConfirmRepoAction),
        AppModeKind::ConfigEdit => edit_action(key),
    }
}

fn resolve_common_action(key: InputKey) -> (r: Option<Action>)
    ensures
        r == common_action(key),
{
    match key.code {
        InputCode::PageUp => Some(Action::PageUp),
        InputCode::PageDown => Some(Action::PageDown),
        InputCode::Left => Some(Action::PreviousTab),
        InputCode::Right => Some(Action::NextTab),
        InputCode::Tab => Some(Action::NextTab),
        InputCode::Char(c) => if !key.ctrl {
            None
        } else if c == 'u' {
            Some(Action::PageUp)
        } else if c == 'd' {
            Some(Action::PageDown)
        } else if c == 'h' {
            Some(Action::PreviousTab)
        } else if c == 'l' {
            Some(Action::NextTab)
        } else if c == 'k' || c == 'p' {
            Some(Action::MoveUp)
        } else if c == 'j' || c == 'n' {
            Some(Action::MoveDown)
        } else {
            None
        },
        _ => None,
    }
}

fn resolve_normal_action(key: InputKey) -> (r: Option<Action>)
    ensures
        r == normal_action(key),
{
    match key.code {
        InputCode::Esc => Some(Action::Quit),
        InputCode::Enter => Some(Action::OpenSelected),
        InputCode::Backspace => Some(Action::Backspace),
        InputCode::Up => Some(Action::MoveUp),
        InputCode::Down => Some(Action::MoveDown),
        InputCode::Home => Some(Action::JumpTop),
        InputCode::End => Some(Action::JumpBottom),
        InputCode::Char(c) => if !key.ctrl {
            Some(Action::InsertChar(c))
        } else if c == 'r' {
            Some(Action::RefreshCurrentTab)
        } else if c == 'b' {
            Some(Action::ToggleConfigTab)
        } else {
            resolve_common_action(key)
        },
        _ => resolve_common_action(key),
    }
}

fn resolve_menu_action(key: InputKey, back: Action, confirm: Action) -> (r: Option<Action>)
    ensures
        r == menu_action(key, back, confirm),
{
    match key.code {
        InputCode::Esc => Some(back),
        InputCode::Backspace => Some(back),
        InputCode::Enter => Some(confirm),
        InputCode::Up => if key.ctrl {
            None
        } else {
            Some(Action::MoveUp)
        },
        InputCode::Down => if key.ctrl {
            None
        } else {
            Some(Action::MoveDown)
        },
        InputCode::Char(c) => if key.ctrl {
            resolve_common_action(key)
        } else if c == 'k' {
            Some(Action::MoveUp)
        } else if c == 'j' {
            Some(Action::MoveDown)
        } else {
            None
        },
        _ => resolve_common_action(key),
    }
}

fn resolve_config_edit_action(key: InputKey) -> (r: Option<Action>)
    ensures
        r == edit_action(key),
{
    match key.code {
        InputCode::Esc => Some(Action::CancelConfigEdit),
        InputCode::Enter => Some(Action::CommitConfigEdit),
        InputCode::Backspace => Some(Action::Backspace),
        InputCode::Char(c) => if key.ctrl {
            None
        } else {
            Some(Action::InsertChar(c))
        },
        _ => None,
    }
}

/// The action of a key in a mode.
pub fn resolve_action(mode: AppModeKind, key: InputKey) -> (r: Option<Action>)
    ensures
        r == resolved(mode, key),
{
    match mode {
        AppModeKind::Normal => resolve_normal_action(key),
        AppModeKind::TagList => resolve_menu_action(key, Action::BackToNormal, Action::SelectTag),
        AppModeKind::ActionMenu => resolve_menu_action(
            key,
            Action::BackToTags,
            Action::ConfirmDockerAction,
        ),
        AppModeKind::RepoMenu => resolve_menu_action(
            key,
            Action::BackToNormal,
            Action::ConfirmRepoAction,
        ),
        AppModeKind::ConfigEdit => resolve_config_edit_action(key),
    }
}

/// Only the escape key ends the program, and only from the list of results.
pub proof fn law_only_escape_quits(mode: AppModeKind, key: InputKey)
    ensures
        resolved(mode, key) == Some(Action::Quit) <==> mode == AppModeKind::Normal && key.code
            == InputCode::Esc,
{
}

/// Enter opens, selects, confirms or saves, as the mode has it; Ctrl+J, which
/// some terminals send for it, never does.
pub proof fn law_enter_is_not_ctrl_j(mode: AppModeKind)
    ensures
        resolved(mode, plain_key(InputCode::Enter)) == Some(
            match mode {
                AppModeKind::Normal => Action::OpenSelected,
                AppModeKind::TagList => Action::SelectTag,
                AppModeKind::ActionMenu => Action::ConfirmDockerAction,
                AppModeKind::RepoMenu => Action::ConfirmRepoAction,
                AppModeKind::ConfigEdit => Action::CommitConfigEdit,
            },
        ),
        resolved(mode, ctrl_key('j')) == (if mode == AppModeKind::ConfigEdit {
            None
        } else {
            Some(Action::MoveDown)
        }),
{
}

/// Paging and moving by control keys work in the list of results and in every
/// menu.
pub proof fn law_control_keys_in_all_lists(mode: AppModeKind)
    requires
        mode != AppModeKind::ConfigEdit,
    ensures
        resolved(mode, ctrl_key('u')) == Some(Action::PageUp),
        resolved(mode, ctrl_key('d')) == Some(Action::PageDown),
        resolved(mode, ctrl_key('n')) == Some(Action::MoveDown),
        resolved(mode, ctrl_key('p')) == Some(Action::MoveUp),
        resolved(mode, ctrl_key('j')) == Some(Action::MoveDown),
        resolved(mode, ctrl_key('k')) == Some(Action::MoveUp),
        resolved(mode, ctrl_key('h')) == Some(Action::PreviousTab),
        resolved(mode, ctrl_key('l')) == Some(Action::NextTab),
{
}

/// A plain character is typed into the query or into the setting, and into
/// nothing else.
pub proof fn law_characters_are_typed(mode: AppModeKind, c: char)
    ensures
        resolved(mode, plain_key(InputCode::Char(c))) == Some(Action::InsertChar(c)) <==> mode
            == AppModeKind::Normal || mode == AppModeKind::ConfigEdit,
{
}

/// Backspace deletes where text is typed, and goes back in the menus.
pub proof fn law_backspace(mode: AppModeKind)
    ensures
        resolved(mode, plain_key(InputCode::Backspace)) == Some(
            match mode {
                AppModeKind::Normal => Action::Backspace,
                AppModeKind::TagList => Action::BackToNormal,
                AppModeKind::ActionMenu => Action::BackToTags,
                AppModeKind::RepoMenu => Action::BackToNormal,
                AppModeKind::ConfigEdit => Action::Backspace,
            },
        ),
{
}

/// The keys for paging and for the tabs do the same in the results and in every
/// menu.
pub proof fn law_named_keys_in_all_lists(mode: AppModeKind)
    requires
        mode != AppModeKind::ConfigEdit,
    ensures
        resolved(mode, plain_key(InputCode::PageUp)) == Some(Action::PageUp),
        resolved(mode, plain_key(InputCode::PageDown)) == Some(Action::PageDown),
        resolved(mode, plain_key(InputCode::Left)) == Some(Action::PreviousTab),
        resolved(mode, plain_key(InputCode::Right)) == Some(Action::NextTab),
        resolved(mode, plain_key(InputCode::Tab)) == Some(Action::NextTab),
        resolved(mode, plain_key(InputCode::Up)) == Some(Action::MoveUp),
        resolved(mode, plain_key(InputCode::Down)) == Some(Action::MoveDown),
{
}

/// The keys that only the list of results has: to its first and last line, to
/// refresh, and to show and hide the configuration.
pub proof fn law_keys_of_the_results(mode: AppModeKind, key: InputKey)
    ensures
        resolved(AppModeKind::Normal, plain_key(InputCode::Home)) == Some(Action::JumpTop),
        resolved(AppModeKind::Normal, plain_key(InputCode::End)) == Some(Action::JumpBottom),
        resolved(AppModeKind::Normal, ctrl_key('r')) == Some(Action::RefreshCurrentTab),
        resolved(AppModeKind::Normal, ctrl_key('b')) == Some(Action::ToggleConfigTab),
        resolved(mode, key) == Some(Action::RefreshCurrentTab) <==> mode == AppModeKind::Normal
            && key == ctrl_key('r'),
        resolved(mode, key) == Some(Action::ToggleConfigTab) <==> mode == AppModeKind::Normal && key
            == ctrl_key('b'),
{
}

/// In a menu the escape key goes back one step, and `j` and `k` move as the
/// arrows do; while a setting is edited the escape key gives up, and no key
/// moves or changes the tab.
pub proof fn law_keys_of_the_menus(key: InputKey)
    ensures
        resolved(AppModeKind::TagList, plain_key(InputCode::Esc)) == Some(Action::BackToNormal),
        resolved(AppModeKind::RepoMenu, plain_key(InputCode::Esc)) == Some(Action::BackToNormal),
        resolved(AppModeKind::ActionMenu, plain_key(InputCode::Esc)) == Some(Action::BackToTags),
        resolved(AppModeKind::ConfigEdit, plain_key(InputCode::Esc)) == Some(
            Action::CancelConfigEdit,
        ),
        forall|mode: AppModeKind|
            mode == AppModeKind::TagList || mode == AppModeKind::RepoMenu || mode
                == AppModeKind::ActionMenu ==> (#[trigger] resolved(
                mode,
                plain_key(InputCode::Char('j')),
            )) == Some(Action::MoveDown) && resolved(mode, plain_key(InputCode::Char('k'))) == Some(
                Action::MoveUp,
            ),
        resolved(AppModeKind::ConfigEdit, key) matches Some(action) ==> action
            == Action::CancelConfigEdit || action == Action::CommitConfigEdit || action
            == Action::Backspace || action is InsertChar,
{
}

} // verus!
