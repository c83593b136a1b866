//! Keys in the prompt, the find bar and the dialogs.

use crate::input::actions::{KeyAction, BACK, PAGE_BACK};
use crate::input::{control_held, FindContext};
use crate::keyevent::{is_letter, KeyCode, KeyEvent};
use crate::prompt::PromptKind;
use vstd::prelude::*;

verus! {

/// Whether a key edits a one-line field: it moves in it, deletes, types, or
/// selects, copies, cuts or pastes.
pub open spec fn field_key(code: KeyCode, ctrl: bool, alt: bool) -> bool {
    match code {
        KeyCode::Left | KeyCode::Right | KeyCode::Home | KeyCode::End => true,
        KeyCode::Backspace | KeyCode::Delete => true,
        KeyCode::Char(c) => if ctrl {
            is_letter(code, 'a', 'A') || is_letter(code, 'c', 'C') || is_letter(code, 'x', 'X')
                || is_letter(code, 'v', 'V')
        } else {
            !alt
        },
        _ => false,
    }
}

/// Whether a key edits a one-line field.
pub fn is_field_key(code: KeyCode, ctrl: bool, alt: bool) -> (r: bool)
    ensures
        r == field_key(code, ctrl, alt),
{
    match code {
        KeyCode::Left | KeyCode::Right | KeyCode::Home | KeyCode::End => true,
        KeyCode::Backspace | KeyCode::Delete => true,
        KeyCode::Char(c) if ctrl && (c == 'a' || c == 'A') => true,
        KeyCode::Char(c) if ctrl && (c == 'c' || c == 'C') => true,
        KeyCode::Char(c) if ctrl && (c == 'x' || c == 'X') => true,
        KeyCode::Char(c) if ctrl && (c == 'v' || c == 'V') => true,
        KeyCode::Char(_) => !ctrl && !alt,
        _ => false,
    }
}

/// Whether a key says yes: Y or Enter.
pub open spec fn says_yes(code: KeyCode) -> bool {
    is_letter(code, 'y', 'Y') || code == KeyCode::Enter
}

/// Whether a key says no.
pub open spec fn says_no(code: KeyCode) -> bool {
    is_letter(code, 'n', 'N')
}

/// What a key answers to a prompt that offers a choice; none for a prompt that
/// takes a name or a plain confirmation.
pub open spec fn choice_action(kind: PromptKind, code: KeyCode) -> Option<KeyAction> {
    match kind {
        PromptKind::CloseUnsaved => Some(
            if says_yes(code) {
                KeyAction::AnswerCloseUnsaved { save: true }
            } else if says_no(code) {
                KeyAction::AnswerCloseUnsaved { save: false }
            } else if code == KeyCode::Esc {
                KeyAction::CancelCloseAll
            } else {
                KeyAction::Nothing
            },
        ),
        PromptKind::CloseTab => Some(
            if says_yes(code) {
                KeyAction::AnswerCloseTab { save: true }
            } else if says_no(code) {
                KeyAction::AnswerCloseTab { save: false }
            } else if code == KeyCode::Esc || is_letter(code, 'c', 'C') {
                KeyAction::ClosePrompt
            } else {
                KeyAction::Nothing
            },
        ),
        PromptKind::QuitUnsaved => Some(
            if says_yes(code) {
                KeyAction::QuitSaveCurrent
            } else if says_no(code) {
                KeyAction::QuitSkipCurrent
            } else if is_letter(code, 'a', 'A') {
                KeyAction::QuitSaveAll
            } else if is_letter(code, 'd', 'D') {
                KeyAction::QuitDiscardAll
            } else if code == KeyCode::Esc || is_letter(code, 'c', 'C') {
                KeyAction::CancelQuit
            } else {
                KeyAction::Nothing
            },
        ),
        PromptKind::ExternalChange => Some(
            if is_letter(code, 'r', 'R') {
                KeyAction::AnswerExternalChange { reload: true }
            } else if is_letter(code, 'k', 'K') || code == KeyCode::Esc {
                KeyAction::AnswerExternalChange { reload: false }
            } else {
                KeyAction::Nothing
            },
        ),
        PromptKind::OpenUrl => Some(
            if says_yes(code) {
                KeyAction::AnswerOpenUrl { open: true }
            } else if says_no(code) || code == KeyCode::Esc {
                KeyAction::AnswerOpenUrl { open: false }
            } else {
                KeyAction::Nothing
            },
        ),
        PromptKind::QuitTerminal => Some(
            if says_yes(code) {
                KeyAction::QuitSkipCurrent
            } else if is_letter(code, 'a', 'A') {
                KeyAction::QuitDiscardAll
            } else if says_no(code) || code == KeyCode::Esc {
                KeyAction::CancelQuit
            } else {
                KeyAction::Nothing
            },
        ),
        _ => None,
    }
}

/// What a key asks of the prompt.
pub open spec fn prompt_action(
    asks: Option<PromptKind>,
    code: KeyCode,
    ctrl: bool,
    alt: bool,
) -> KeyAction {
    if asks is Some && choice_action(asks->0, code) is Some {
        choice_action(asks->0, code)->0
    } else if code == KeyCode::Esc {
        KeyAction::ClosePrompt
    } else if code == KeyCode::Enter {
        KeyAction::ConfirmPrompt
    } else if asks is Some && asks->0.takes_input() && field_key(code, ctrl, alt) {
        KeyAction::EditPrompt
    } else {
        KeyAction::Nothing
    }
}

/// Keys in the prompt: the answers to its choices, or a name typed into it.
pub fn handle_prompt(asks: Option<PromptKind>, key: &KeyEvent, ctrl: bool, alt: bool) -> (r:
    KeyAction)
    ensures
        r == prompt_action(asks, key.code, ctrl, alt),
{
    match asks {
        Some(PromptKind::CloseUnsaved) => {
            return match key.code {
                KeyCode::Char('y') | KeyCode::Char('Y') | KeyCode::Enter =>
                    KeyAction::AnswerCloseUnsaved { save: true },
                KeyCode::Char('n') | KeyCode::Char('N') => KeyAction::AnswerCloseUnsaved {
                    save: false,
                },
                KeyCode::Esc => KeyAction::CancelCloseAll,
                _ => KeyAction::Nothing,
            };
        },
        Some(PromptKind::CloseTab) => {
            return match key.code {
                KeyCode::Char('y') | KeyCode::Char('Y') | KeyCode::Enter =>
                    KeyAction::AnswerCloseTab { save: true },
                KeyCode::Char('n') | KeyCode::Char('N') => KeyAction::AnswerCloseTab {
                    save: false,
                },
                KeyCode::Esc | KeyCode::Char('c') | KeyCode::Char('C') => KeyAction::ClosePrompt,
                _ => KeyAction::Nothing,
            };
        },
        Some(PromptKind::QuitUnsaved) => {
            return match key.code {
                KeyCode::Char('y') | KeyCode::Char('Y') | KeyCode::Enter =>
                    KeyAction::QuitSaveCurrent,
                KeyCode::Char('n') | KeyCode::Char('N') => KeyAction::QuitSkipCurrent,
                KeyCode::Char('a') | KeyCode::Char('A') => KeyAction::QuitSaveAll,
                KeyCode::Char('d') | KeyCode::Char('D') => KeyAction::QuitDiscardAll,
                KeyCode::Esc | KeyCode::Char('c') | KeyCode::Char('C') => KeyAction::CancelQuit,
                _ => KeyAction::Nothing,
            };
        },
        Some(PromptKind::ExternalChange) => {
            return match key.code {
                KeyCode::Char('r') | KeyCode::Char('R') => KeyAction::AnswerExternalChange {
                    reload: true,
                },
                KeyCode::Char('k') | KeyCode::Char('K') | KeyCode::Esc =>
                    KeyAction::AnswerExternalChange { reload: false },
                _ => KeyAction::Nothing,
            };
        },
        Some(PromptKind::OpenUrl) => {
            return match key.code {
                KeyCode::Enter | KeyCode::Char('y') | KeyCode::Char('Y') =>
                    KeyAction::AnswerOpenUrl { open: true },
                KeyCode::Esc | KeyCode::Char('n') | KeyCode::Char('N') =>
                    KeyAction::AnswerOpenUrl { open: false },
                _ => KeyAction::Nothing,
            };
        },
        Some(PromptKind::QuitTerminal) => {
            return match key.code {
                KeyCode::Char('y') | KeyCode::Char('Y') | KeyCode::Enter =>
                    KeyAction::QuitSkipCurrent,
                KeyCode::Char('a') | KeyCode::Char('A') => KeyAction::QuitDiscardAll,
                KeyCode::Esc | KeyCode::Char('n') | KeyCode::Char('N') => KeyAction::CancelQuit,
                _ => KeyAction::Nothing,
            };
        },
        _ => {},
    }
    let typed = match asks {
        Some(PromptKind::NewFile) | Some(PromptKind::NewFolder) | Some(PromptKind::Rename) => true,
        _ => false,
    };
    match key.code {
        KeyCode::Esc => KeyAction::ClosePrompt,
        KeyCode::Enter => KeyAction::ConfirmPrompt,
        _ => if typed && is_field_key(key.code, ctrl, alt) {
            KeyAction::EditPrompt
        } else {
            KeyAction::Nothing
        },
    }
}

/// What a key asks of the replacement in the find bar.
pub open spec fn replace_action(code: KeyCode, ctrl: bool, alt: bool, shift: bool) -> KeyAction {
    if code == KeyCode::Esc {
        KeyAction::CloseFind
    } else if code == KeyCode::Enter {
        if shift {
            KeyAction::ReplaceAll
        } else {
            KeyAction::ReplaceCurrent
        }
    } else if field_key(code, ctrl, alt) {
        KeyAction::EditReplace
    } else {
        KeyAction::Nothing
    }
}

/// What a key asks of the find bar.
pub open spec fn find_action(
    find: FindContext,
    code: KeyCode,
    ctrl: bool,
    alt: bool,
    shift: bool,
) -> KeyAction {
    if ctrl && is_letter(code, 'r', 'R') {
        KeyAction::ToggleReplace
    } else if code == KeyCode::Tab && find.replacing {
        KeyAction::ToggleFindFocus
    } else if find.replace_focus {
        replace_action(code, ctrl, alt, shift)
    } else if code == KeyCode::Esc {
        KeyAction::CloseFind
    } else if code == KeyCode::Down || code == KeyCode::Enter && !shift {
        KeyAction::FindNext
    } else if code == KeyCode::Up || code == KeyCode::Enter {
        KeyAction::FindPrev
    } else if field_key(code, ctrl, alt) {
        KeyAction::EditFind
    } else {
        KeyAction::Nothing
    }
}

/// Keys in the find bar: typing refines the query, Enter and the arrows walk
/// the matches, Control+R shows the replacement, and Tab swaps the focus.
pub fn handle_find(find: &FindContext, key: &KeyEvent, ctrl: bool, alt: bool, shift: bool) -> (r:
    KeyAction)
    ensures
        r == find_action(*find, key.code, ctrl, alt, shift),
{
    match key.code {
        KeyCode::Char(c) if ctrl && (c == 'r' || c == 'R') => return KeyAction::ToggleReplace,
        KeyCode::Tab if find.replacing => return KeyAction::ToggleFindFocus,
        _ => {},
    }
    if find.replace_focus {
        return handle_replace_field(key, ctrl, alt, shift);
    }
    match key.code {
        KeyCode::Esc => KeyAction::CloseFind,
        KeyCode::Enter => if shift {
            KeyAction::FindPrev
        } else {
            KeyAction::FindNext
        },
        KeyCode::Down => KeyAction::FindNext,
        KeyCode::Up => KeyAction::FindPrev,
        _ => if is_field_key(key.code, ctrl, alt) {
            KeyAction::EditFind
        } else {
            KeyAction::Nothing
        },
    }
}

/// Keys in the replacement: Enter replaces the current match, with Shift every
/// match.
fn handle_replace_field(key: &KeyEvent, ctrl: bool, alt: bool, shift: bool) -> (r: KeyAction)
    ensures
        r == replace_action(key.code, ctrl, alt, shift),
{
    match key.code {
        KeyCode::Esc => KeyAction::CloseFind,
        KeyCode::Enter if shift => KeyAction::ReplaceAll,
        KeyCode::Enter => KeyAction::ReplaceCurrent,
        _ => if is_field_key(key.code, ctrl, alt) {
            KeyAction::EditReplace
        } else {
            KeyAction::Nothing
        },
    }
}

/// What a character asks of the file dialog.
pub open spec fn files_char_action(c: char, ctrl: bool, alt: bool, shift: bool) -> KeyAction {
    if ctrl && shift && (c == 'c' || c == 'C') {
        KeyAction::FilesCopyPath { relative: false }
    } else if ctrl && shift && (c == 'r' || c == 'R') {
        KeyAction::FilesCopyPath { relative: true }
    } else if alt && (c == 'h' || c == 'H') {
        KeyAction::FilesToggleJunk
    } else if alt && shift && (c == 'n' || c == 'N') {
        KeyAction::FilesNewFolder
    } else if ctrl && c == 'n' {
        KeyAction::FilesNewFile
    } else if ctrl && c == 'd' {
        KeyAction::FilesDelete
    } else if ctrl && c == 'r' {
        KeyAction::FilesRename
    } else if alt && (c == 'r' || c == 'R') {
        KeyAction::FilesReveal
    } else if !ctrl {
        KeyAction::FilesInput(c)
    } else if c == 'a' || c == 'A' || c == 'c' || c == 'C' || c == 'x' || c == 'X' || c == 'v' || c
        == 'V' {
        KeyAction::EditFiles
    } else {
        KeyAction::Nothing
    }
}

/// What a key asks of the file dialog.
pub open spec fn files_action(code: KeyCode, ctrl: bool, alt: bool, shift: bool) -> KeyAction {
    match code {
        KeyCode::Esc => KeyAction::CloseTopDialog,
        KeyCode::Up => KeyAction::FilesUp,
        KeyCode::Down => KeyAction::FilesDown,
        KeyCode::Left => if alt {
            KeyAction::EditFiles
        } else {
            KeyAction::FilesCollapse
        },
        KeyCode::Right => if alt {
            KeyAction::EditFiles
        } else {
            KeyAction::FilesExpand
        },
        KeyCode::Enter => KeyAction::FilesOpen,
        KeyCode::BackTab => KeyAction::FilesBackTab,
        KeyCode::Tab => if shift {
            KeyAction::FilesBackTab
        } else {
            KeyAction::FilesTab
        },
        KeyCode::Backspace => if alt {
            KeyAction::EditFiles
        } else {
            KeyAction::FilesBackspace
        },
        KeyCode::Home | KeyCode::End | KeyCode::Delete => KeyAction::EditFiles,
        KeyCode::Char(c) => files_char_action(c, ctrl, alt, shift),
        _ => KeyAction::Nothing,
    }
}

/// Keys in the file dialog: the tree, the search box and the management of
/// files.
pub fn handle_file_dialog(key: &KeyEvent, ctrl: bool, alt: bool, shift: bool) -> (r: KeyAction)
    ensures
        r == files_action(key.code, ctrl, alt, shift),
{
    match key.code {
        KeyCode::Esc => KeyAction::CloseTopDialog,
        KeyCode::Up => KeyAction::FilesUp,
        KeyCode::Down => KeyAction::FilesDown,
        // Plain Left and Right drive the tree; with Alt they move the cursor
        // in the search box by word.
        KeyCode::Left if alt => KeyAction::EditFiles,
        KeyCode::Right if alt => KeyAction::EditFiles,
        KeyCode::Home => KeyAction::EditFiles,
        KeyCode::End => KeyAction::EditFiles,
        KeyCode::Right => KeyAction::FilesExpand,
        KeyCode::Left => KeyAction::FilesCollapse,
        KeyCode::Enter => KeyAction::FilesOpen,
        KeyCode::BackTab => KeyAction::FilesBackTab,
        // A window reports Shift+Tab as Tab with Shift.
        KeyCode::Tab if shift => KeyAction::FilesBackTab,
        KeyCode::Tab => KeyAction::FilesTab,
        KeyCode::Char(c) if ctrl && shift && (c == 'c' || c == 'C') => KeyAction::FilesCopyPath {
            relative: false,
        },
        KeyCode::Char(c) if ctrl && shift && (c == 'r' || c == 'R') => KeyAction::FilesCopyPath {
            relative: true,
        },
        KeyCode::Char(c) if alt && (c == 'h' || c == 'H') => KeyAction::FilesToggleJunk,
        KeyCode::Char(c) if alt && shift && (c == 'n' || c == 'N') => KeyAction::FilesNewFolder,
        KeyCode::Char('n') if ctrl => KeyAction::FilesNewFile,
        KeyCode::Char('d') if ctrl => KeyAction::FilesDelete,
        KeyCode::Char('r') if ctrl => KeyAction::FilesRename,
        KeyCode::Char(c) if alt && (c == 'r' || c == 'R') => KeyAction::FilesReveal,
        KeyCode::Char(c) if ctrl && (c == 'a' || c == 'A') => KeyAction::EditFiles,
        KeyCode::Char(c) if ctrl && (c == 'c' || c == 'C') => KeyAction::EditFiles,
        KeyCode::Char(c) if ctrl && (c == 'x' || c == 'X') => KeyAction::EditFiles,
        KeyCode::Char(c) if ctrl && (c == 'v' || c == 'V') => KeyAction::EditFiles,
        KeyCode::Backspace if alt => KeyAction::EditFiles,
        KeyCode::Backspace => KeyAction::FilesBackspace,
        KeyCode::Delete => KeyAction::EditFiles,
        KeyCode::Char(c) if !ctrl => KeyAction::FilesInput(c),
        _ => KeyAction::Nothing,
    }
}

/// What a key asks of the search in files.
pub open spec fn search_action(code: KeyCode, ctrl: bool, alt: bool) -> KeyAction {
    match code {
        KeyCode::Esc => KeyAction::CloseTopDialog,
        KeyCode::Up => KeyAction::SearchUp,
        KeyCode::Down => KeyAction::SearchDown,
        KeyCode::Enter => KeyAction::SearchOpen,
        _ => if field_key(code, ctrl, alt) {
            KeyAction::EditSearch
        } else {
            KeyAction::Nothing
        },
    }
}

/// Keys in the search across the project. Enter opens a result; it never starts
/// a search.
pub fn handle_search_files_dialog(key: &KeyEvent, ctrl: bool, alt: bool) -> (r: KeyAction)
    ensures
        r == search_action(key.code, ctrl, alt),
{
    match key.code {
        KeyCode::Esc => KeyAction::CloseTopDialog,
        KeyCode::Up => KeyAction::SearchUp,
        KeyCode::Down => KeyAction::SearchDown,
        KeyCode::Enter => KeyAction::SearchOpen,
        _ => if is_field_key(key.code, ctrl, alt) {
            KeyAction::EditSearch
        } else {
            KeyAction::Nothing
        },
    }
}

/// What a key asks of the quick switcher between terminals.
pub open spec fn picker_action(code: KeyCode, control: bool) -> KeyAction {
    match code {
        KeyCode::Esc => KeyAction::CloseTopDialog,
        KeyCode::Up => KeyAction::PickerMove(BACK),
        KeyCode::Down => KeyAction::PickerMove(1),
        KeyCode::Enter => KeyAction::PickerConfirm,
        KeyCode::Backspace => KeyAction::PickerBackspace,
        KeyCode::Char(c) => if control {
            KeyAction::Nothing
        } else {
            KeyAction::PickerInput(c)
        },
        _ => KeyAction::Nothing,
    }
}

/// Keys in the quick switcher between terminals.
pub fn handle_terminal_picker_dialog(key: &KeyEvent) -> (r: KeyAction)
    ensures
        r == picker_action(key.code, control_held(key.modifiers)),
{
    let no_mods = !key.modifiers.control && !key.modifiers.sup;
    match key.code {
        KeyCode::Esc => KeyAction::CloseTopDialog,
        KeyCode::Up => KeyAction::PickerMove(BACK),
        KeyCode::Down => KeyAction::PickerMove(1),
        KeyCode::Enter => KeyAction::PickerConfirm,
        KeyCode::Backspace => KeyAction::PickerBackspace,
        KeyCode::Char(c) if no_mods => KeyAction::PickerInput(c),
        _ => KeyAction::Nothing,
    }
}

/// What a key asks of the recent folders.
pub open spec fn recent_action(code: KeyCode) -> KeyAction {
    match code {
        KeyCode::Esc => KeyAction::CloseTopDialog,
        KeyCode::Up => KeyAction::RecentMove(BACK),
        KeyCode::Down => KeyAction::RecentMove(1),
        KeyCode::Char(c) => if c == ' ' {
            KeyAction::RecentToggle
        } else {
            KeyAction::Nothing
        },
        KeyCode::Enter => KeyAction::RecentOpen,
        KeyCode::Delete | KeyCode::Backspace => KeyAction::RecentDelete,
        _ => KeyAction::Nothing,
    }
}

/// Keys in the recent folders.
pub fn handle_recent_dialog(key: &KeyEvent) -> (r: KeyAction)
    ensures
        r == recent_action(key.code),
{
    match key.code {
        KeyCode::Esc => KeyAction::CloseTopDialog,
        KeyCode::Up => KeyAction::RecentMove(BACK),
        KeyCode::Down => KeyAction::RecentMove(1),
        KeyCode::Char(' ') => KeyAction::RecentToggle,
        KeyCode::Enter => KeyAction::RecentOpen,
        KeyCode::Delete | KeyCode::Backspace => KeyAction::RecentDelete,
        _ => KeyAction::Nothing,
    }
}

/// What a key asks of the settings.
pub open spec fn settings_action(code: KeyCode) -> KeyAction {
    if code == KeyCode::Esc || code == KeyCode::Enter {
        KeyAction::CloseTopDialog
    } else if code == KeyCode::Up || code == KeyCode::BackTab {
        KeyAction::SettingsFocus(BACK)
    } else if code == KeyCode::Down || code == KeyCode::Tab {
        KeyAction::SettingsFocus(1)
    } else if code == KeyCode::Left || is_letter(code, '-', '_') {
        KeyAction::SettingsAdjust(BACK)
    } else if code == KeyCode::Right || is_letter(code, '+', '=') {
        KeyAction::SettingsAdjust(1)
    } else {
        KeyAction::Nothing
    }
}

/// Keys in the settings.
pub fn handle_settings_dialog(key: &KeyEvent) -> (r: KeyAction)
    ensures
        r == settings_action(key.code),
{
    match key.code {
        KeyCode::Esc | KeyCode::Enter => KeyAction::CloseTopDialog,
        KeyCode::Up | KeyCode::BackTab => KeyAction::SettingsFocus(BACK),
        KeyCode::Down | KeyCode::Tab => KeyAction::SettingsFocus(1),
        KeyCode::Left => KeyAction::SettingsAdjust(BACK),
        KeyCode::Right => KeyAction::SettingsAdjust(1),
        KeyCode::Char('-') | KeyCode::Char('_') => KeyAction::SettingsAdjust(BACK),
        KeyCode::Char('+') | KeyCode::Char('=') => KeyAction::SettingsAdjust(1),
        _ => KeyAction::Nothing,
    }
}

/// What a key asks of the to-do list.
pub open spec fn todos_action(
    input_empty: bool,
    code: KeyCode,
    ctrl: bool,
    alt: bool,
    shift: bool,
) -> KeyAction {
    if code == KeyCode::Esc {
        KeyAction::CloseTopDialog
    } else if code == KeyCode::Up {
        KeyAction::TodoMove(BACK)
    } else if code == KeyCode::Down {
        KeyAction::TodoMove(1)
    } else if code == KeyCode::Enter {
        KeyAction::TodoAdd
    } else if code == KeyCode::Char(' ') && input_empty {
        KeyAction::TodoToggle
    } else if ctrl && is_letter(code, 'e', 'E') {
        KeyAction::TodoEditAsFile
    } else if ctrl && is_letter(code, 'd', 'D') {
        if shift {
            KeyAction::TodoClearDone
        } else {
            KeyAction::TodoRemove
        }
    } else if ctrl && (is_letter(code, 'c', 'C') || is_letter(code, 'x', 'X')) {
        KeyAction::Nothing
    } else if field_key(code, ctrl, alt) {
        KeyAction::EditTodo
    } else {
        KeyAction::Nothing
    }
}

/// Keys in the to-do list: typing goes to the line for a new task, and the
/// other keys act on the highlighted one. A space ticks a task off while
/// nothing is typed.
pub fn handle_todos_dialog(
    input_empty: bool,
    key: &KeyEvent,
    ctrl: bool,
    alt: bool,
    shift: bool,
) -> (r: KeyAction)
    ensures
        r == todos_action(input_empty, key.code, ctrl, alt, shift),
{
    match key.code {
        KeyCode::Esc => KeyAction::CloseTopDialog,
        KeyCode::Up => KeyAction::TodoMove(BACK),
        KeyCode::Down => KeyAction::TodoMove(1),
        KeyCode::Enter => KeyAction::TodoAdd,
        KeyCode::Char(' ') if input_empty => KeyAction::TodoToggle,
        KeyCode::Char(c) if ctrl && (c == 'e' || c == 'E') => KeyAction::TodoEditAsFile,
        KeyCode::Char(c) if ctrl && shift && (c == 'd' || c == 'D') => KeyAction::TodoClearDone,
        KeyCode::Char(c) if ctrl && (c == 'd' || c == 'D') => KeyAction::TodoRemove,
        KeyCode::Left | KeyCode::Right | KeyCode::Home | KeyCode::End => KeyAction::EditTodo,
        KeyCode::Backspace | KeyCode::Delete => KeyAction::EditTodo,
        KeyCode::Char(c) if ctrl && (c == 'a' || c == 'A') => KeyAction::EditTodo,
        KeyCode::Char(c) if ctrl && (c == 'v' || c == 'V') => KeyAction::EditTodo,
        KeyCode::Char(_) if !ctrl && !alt => KeyAction::EditTodo,
        _ => KeyAction::Nothing,
    }
}

/// What a key asks of the clipboard history.
pub open spec fn clipboard_action(code: KeyCode, ctrl: bool) -> KeyAction {
    if code == KeyCode::Esc {
        KeyAction::CloseTopDialog
    } else if code == KeyCode::Up {
        KeyAction::ClipMove(BACK)
    } else if code == KeyCode::Down {
        KeyAction::ClipMove(1)
    } else if code == KeyCode::Enter {
        KeyAction::ClipPaste
    } else if ctrl && is_letter(code, 'd', 'D') {
        KeyAction::ClipClear
    } else {
        KeyAction::Nothing
    }
}

/// Keys in the clipboard history.
pub fn handle_clipboard_dialog(key: &KeyEvent, ctrl: bool) -> (r: KeyAction)
    ensures
        r == clipboard_action(key.code, ctrl),
{
    match key.code {
        KeyCode::Esc => KeyAction::CloseTopDialog,
        KeyCode::Up => KeyAction::ClipMove(BACK),
        KeyCode::Down => KeyAction::ClipMove(1),
        KeyCode::Enter => KeyAction::ClipPaste,
        KeyCode::Char(c) if ctrl && (c == 'd' || c == 'D') => KeyAction::ClipClear,
        _ => KeyAction::Nothing,
    }
}

/// What a key asks of the cheat sheet.
pub open spec fn help_action(code: KeyCode) -> KeyAction {
    match code {
        KeyCode::Esc | KeyCode::Enter => KeyAction::CloseTopDialog,
        KeyCode::F(n) => if n == 1 {
            KeyAction::CloseTopDialog
        } else {
            KeyAction::Nothing
        },
        KeyCode::Up => KeyAction::ScrollHelp(BACK),
        KeyCode::Down => KeyAction::ScrollHelp(1),
        KeyCode::PageUp => KeyAction::ScrollHelp(PAGE_BACK),
        KeyCode::PageDown => KeyAction::ScrollHelp(10),
        _ => KeyAction::Nothing,
    }
}

/// Keys in the cheat sheet: scroll it or close it.
pub fn handle_help_dialog(key: &KeyEvent) -> (r: KeyAction)
    ensures
        r == help_action(key.code),
{
    match key.code {
        KeyCode::Esc | KeyCode::Enter | KeyCode::F(1) => KeyAction::CloseTopDialog,
        KeyCode::Up => KeyAction::ScrollHelp(BACK),
        KeyCode::Down => KeyAction::ScrollHelp(1),
        KeyCode::PageUp => KeyAction::ScrollHelp(PAGE_BACK),
        KeyCode::PageDown => KeyAction::ScrollHelp(10),
        _ => KeyAction::Nothing,
    }
}

} // verus!
