//! Which key asks for what.

use crate::buffer::state::Move;
use crate::dialog::Dialog;
use crate::input::actions::{KeyAction, TermAction};
use crate::input::{key_action, KeyContext};
use crate::keyevent::{KeyCode, KeyEvent, KeyModifiers};
use crate::prompt::PromptKind;
use vstd::prelude::*;

verus! {

/// A key with no modifier.
pub open spec fn plain(code: KeyCode) -> KeyEvent {
    KeyEvent {
        code,
        modifiers: KeyModifiers { control: false, alt: false, shift: false, sup: false },
    }
}

/// A key with Shift.
pub open spec fn with_shift(code: KeyCode) -> KeyEvent {
    KeyEvent {
        code,
        modifiers: KeyModifiers { control: false, alt: false, shift: true, sup: false },
    }
}

/// A key with Control, and with Shift or without.
pub open spec fn with_control(code: KeyCode, shift: bool) -> KeyEvent {
    KeyEvent { code, modifiers: KeyModifiers { control: true, alt: false, shift, sup: false } }
}

/// A key with Alt, and with Shift or without.
pub open spec fn with_alt(code: KeyCode, shift: bool) -> KeyEvent {
    KeyEvent { code, modifiers: KeyModifiers { control: false, alt: true, shift, sup: false } }
}

/// A key with Command.
pub open spec fn with_command(code: KeyCode) -> KeyEvent {
    KeyEvent {
        code,
        modifiers: KeyModifiers { control: false, alt: false, shift: false, sup: true },
    }
}

/// A character in small or in capital letters.
pub open spec fn either_case(code: KeyCode, small: char, capital: char) -> bool {
    code == KeyCode::Char(small) || code == KeyCode::Char(capital)
}

/// No prompt, no dialog and no find bar is open.
pub open spec fn in_editor(ctx: KeyContext) -> bool {
    !ctx.prompt && ctx.top is None && ctx.find is None
}

/// The dialog has the focus, and no prompt is open.
pub open spec fn in_dialog(ctx: KeyContext, d: Dialog) -> bool {
    !ctx.prompt && ctx.top == Some(d)
}

/// A prompt of this kind is open.
pub open spec fn in_prompt(ctx: KeyContext, k: PromptKind) -> bool {
    ctx.prompt && ctx.asks == Some(k)
}

/// With Alt, and whatever is open but a prompt, T shows the terminals, F the files,
/// O the recent folders, Z wraps long lines, D shows the to-do list and V the
/// clipboard history. With Control, a comma shows the settings, Q quits, O opens a
/// folder, and F with Shift searches in files.
pub proof fn law_chords_that_work_from_anywhere(ctx: KeyContext, code: KeyCode)
    requires
        !ctx.prompt,
    ensures
        either_case(code, 't', 'T') ==> key_action(ctx, with_alt(code, false))
            == KeyAction::ToggleTerminal,
        either_case(code, 'f', 'F') ==> key_action(ctx, with_alt(code, false))
            == KeyAction::OpenFiles,
        either_case(code, 'o', 'O') ==> key_action(ctx, with_alt(code, false))
            == KeyAction::OpenRecent,
        either_case(code, 'z', 'Z') ==> key_action(ctx, with_alt(code, false))
            == KeyAction::ToggleWordWrap,
        either_case(code, 'd', 'D') ==> key_action(ctx, with_alt(code, false))
            == KeyAction::OpenTodos,
        either_case(code, 'v', 'V') ==> key_action(ctx, with_alt(code, false))
            == KeyAction::OpenClipboard,
        code == KeyCode::Char(',') ==> key_action(ctx, with_control(code, false))
            == KeyAction::OpenSettings,
        either_case(code, 'q', 'Q') ==> key_action(ctx, with_control(code, false))
            == KeyAction::RequestQuit,
        either_case(code, 'o', 'O') ==> key_action(ctx, with_control(code, false))
            == KeyAction::RequestOpenFolder,
        either_case(code, 'f', 'F') ==> key_action(ctx, with_control(code, true))
            == KeyAction::OpenSearchFiles,
{
}

/// The arrows move the carets by one place or line, with Alt by one word, and with
/// Control to the ends of the line and of the text; Home and End go to the ends of
/// the line. With Shift they select.
pub proof fn law_arrows_move_the_carets(ctx: KeyContext, code: KeyCode, shift: bool)
    requires
        in_editor(ctx),
        ctx.editor is Some,
    ensures
        code == KeyCode::Left ==> key_action(ctx, plain(code))
            == (KeyAction::MoveCarets { to: Move::Left, select: false }),
        code == KeyCode::Left ==> key_action(ctx, with_shift(code))
            == (KeyAction::MoveCarets { to: Move::Left, select: true }),
        code == KeyCode::Right ==> key_action(ctx, plain(code))
            == (KeyAction::MoveCarets { to: Move::Right, select: false }),
        code == KeyCode::Right ==> key_action(ctx, with_shift(code))
            == (KeyAction::MoveCarets { to: Move::Right, select: true }),
        code == KeyCode::Up ==> key_action(ctx, plain(code))
            == (KeyAction::MoveCarets { to: Move::Up, select: false }),
        code == KeyCode::Up ==> key_action(ctx, with_shift(code))
            == (KeyAction::MoveCarets { to: Move::Up, select: true }),
        code == KeyCode::Down ==> key_action(ctx, plain(code))
            == (KeyAction::MoveCarets { to: Move::Down, select: false }),
        code == KeyCode::Down ==> key_action(ctx, with_shift(code))
            == (KeyAction::MoveCarets { to: Move::Down, select: true }),
        code == KeyCode::Home ==> key_action(ctx, plain(code))
            == (KeyAction::MoveCarets { to: Move::Home, select: false }),
        code == KeyCode::Home ==> key_action(ctx, with_shift(code))
            == (KeyAction::MoveCarets { to: Move::Home, select: true }),
        code == KeyCode::End ==> key_action(ctx, plain(code))
            == (KeyAction::MoveCarets { to: Move::End, select: false }),
        code == KeyCode::End ==> key_action(ctx, with_shift(code))
            == (KeyAction::MoveCarets { to: Move::End, select: true }),
        code == KeyCode::Left ==> key_action(ctx, with_alt(code, shift))
            == (KeyAction::MoveCarets { to: Move::WordLeft, select: shift }),
        code == KeyCode::Right ==> key_action(ctx, with_alt(code, shift))
            == (KeyAction::MoveCarets { to: Move::WordRight, select: shift }),
        code == KeyCode::Left ==> key_action(ctx, with_control(code, shift))
            == (KeyAction::MoveCarets { to: Move::Home, select: shift }),
        code == KeyCode::Right ==> key_action(ctx, with_control(code, shift))
            == (KeyAction::MoveCarets { to: Move::End, select: shift }),
        code == KeyCode::Up ==> key_action(ctx, with_control(code, shift))
            == (KeyAction::MoveCarets { to: Move::DocStart, select: shift }),
        code == KeyCode::Down ==> key_action(ctx, with_control(code, shift))
            == (KeyAction::MoveCarets { to: Move::DocEnd, select: shift }),
{
}

/// A character is typed, Enter breaks the line, Tab types four spaces or indents the
/// lines of a selection, Shift with Tab outdents, Backspace takes what is before the
/// caret, by words with Alt and to the start of the line with Control, Delete takes
/// what is behind it, and both take a selection instead.
pub proof fn law_keys_that_edit(ctx: KeyContext, code: KeyCode)
    requires
        in_editor(ctx),
        ctx.editor is Some,
    ensures
        code is Char ==> key_action(ctx, plain(code))
            == KeyAction::InsertChar(code->Char_0),
        code is Char ==> key_action(ctx, with_shift(code))
            == KeyAction::InsertChar(code->Char_0),
        code == KeyCode::Enter ==> key_action(ctx, plain(code))
            == KeyAction::Newline,
        code == KeyCode::Tab && !(ctx.editor->0.selecting && ctx.editor->0.multiline) ==> key_action(ctx, plain(code))
            == KeyAction::InsertSoftTab,
        code == KeyCode::Tab && ctx.editor->0.selecting && ctx.editor->0.multiline ==> key_action(ctx, plain(code))
            == KeyAction::Indent,
        code == KeyCode::Tab ==> key_action(ctx, with_shift(code))
            == KeyAction::Outdent,
        code == KeyCode::BackTab ==> key_action(ctx, plain(code))
            == KeyAction::Outdent,
        code == KeyCode::Backspace && !ctx.editor->0.selecting ==> key_action(ctx, plain(code))
            == KeyAction::Backspace,
        code == KeyCode::Backspace && !ctx.editor->0.selecting ==> key_action(ctx, with_alt(code, false))
            == KeyAction::DeleteWordLeft,
        code == KeyCode::Backspace ==> key_action(ctx, with_control(code, false))
            == KeyAction::DeleteToLineStart,
        code == KeyCode::Delete && !ctx.editor->0.selecting ==> key_action(ctx, plain(code))
            == KeyAction::Delete,
        (code == KeyCode::Backspace || code == KeyCode::Delete) && ctx.editor->0.selecting ==> key_action(ctx, plain(code))
            == KeyAction::DeleteSelection,
        code == KeyCode::Esc ==> key_action(ctx, plain(code))
            == KeyAction::ClearCarets,
{
}

/// With Control: S saves, W closes, F finds, A selects all, C, X and V copy, cut and
/// paste, Z undoes and Y redoes, D selects the next occurrence, a backslash shows
/// all files, and Tab shows the next one. With Shift too: S saves all, W closes
/// all, T opens the file closed last again, Z redoes, C and R copy the path, Tab
/// shows the file before, and a comma and a full stop move the tab.
pub proof fn law_control_chords_of_the_editor(ctx: KeyContext, code: KeyCode)
    requires
        in_editor(ctx),
    ensures
        either_case(code, 's', 'S') ==> key_action(ctx, with_control(code, false))
            == KeyAction::SaveActive,
        either_case(code, 's', 'S') ==> key_action(ctx, with_control(code, true))
            == KeyAction::SaveAll,
        either_case(code, 'w', 'W') ==> key_action(ctx, with_control(code, false))
            == KeyAction::CloseTab,
        either_case(code, 'w', 'W') ==> key_action(ctx, with_control(code, true))
            == KeyAction::CloseAll,
        either_case(code, 'f', 'F') ==> key_action(ctx, with_control(code, false))
            == KeyAction::OpenFind,
        either_case(code, 't', 'T') ==> key_action(ctx, with_control(code, true))
            == KeyAction::ReopenTab,
        either_case(code, 'a', 'A') ==> key_action(ctx, with_control(code, false))
            == KeyAction::SelectAll,
        either_case(code, 'c', 'C') ==> key_action(ctx, with_control(code, false))
            == KeyAction::CopySelection,
        either_case(code, 'c', 'C') ==> key_action(ctx, with_control(code, true))
            == (KeyAction::CopyPath { relative: false }),
        either_case(code, 'r', 'R') ==> key_action(ctx, with_control(code, true))
            == (KeyAction::CopyPath { relative: true }),
        either_case(code, 'x', 'X') ==> key_action(ctx, with_control(code, false))
            == KeyAction::CutSelection,
        either_case(code, 'v', 'V') ==> key_action(ctx, with_control(code, false))
            == KeyAction::Paste,
        either_case(code, 'z', 'Z') ==> key_action(ctx, with_control(code, false))
            == KeyAction::Undo,
        either_case(code, 'z', 'Z') ==> key_action(ctx, with_control(code, true))
            == KeyAction::Redo,
        either_case(code, 'y', 'Y') ==> key_action(ctx, with_control(code, false))
            == KeyAction::Redo,
        either_case(code, 'd', 'D') ==> key_action(ctx, with_control(code, false))
            == KeyAction::AddNextOccurrence,
        code == KeyCode::Char('\\') ==> key_action(ctx, with_control(code, false))
            == KeyAction::ToggleGrid,
        code == KeyCode::Tab ==> key_action(ctx, with_control(code, false))
            == KeyAction::NextTab,
        code == KeyCode::Tab ==> key_action(ctx, with_control(code, true))
            == KeyAction::PrevTab,
        code == KeyCode::BackTab ==> key_action(ctx, with_control(code, true))
            == KeyAction::PrevTab,
        code == KeyCode::Char('<') ==> key_action(ctx, with_control(code, true))
            == KeyAction::MoveTabLeft,
        code == KeyCode::Char('>') ==> key_action(ctx, with_control(code, true))
            == KeyAction::MoveTabRight,
        code == KeyCode::Char(',') ==> key_action(ctx, with_control(code, true))
            == KeyAction::MoveTabLeft,
        code == KeyCode::Char('.') ==> key_action(ctx, with_control(code, true))
            == KeyAction::MoveTabRight,
{
}

/// With Control and Alt, Up and Down add a caret above and below.
pub proof fn law_carets_are_added_with_control_and_alt(ctx: KeyContext)
    requires
        in_editor(ctx),
    ensures
        ({
            let both = KeyModifiers { control: true, alt: true, shift: false, sup: false };
            &&& key_action(ctx, KeyEvent { code: KeyCode::Up, modifiers: both })
                == KeyAction::AddCaretAbove
            &&& key_action(ctx, KeyEvent { code: KeyCode::Down, modifiers: both })
                == KeyAction::AddCaretBelow
        }),
{
}

/// The answers to the questions: Y or Enter for yes, N for no, Escape to call it
/// off, and the letters that the question offers besides. A name is typed and
/// taken with Enter.
pub proof fn law_answers_to_questions(ctx: KeyContext, code: KeyCode)
    requires
        ctx.prompt,
    ensures
        in_prompt(ctx, PromptKind::CloseUnsaved) && (either_case(code, 'y', 'Y') || code == KeyCode::Enter) ==> key_action(ctx, plain(code))
            == (KeyAction::AnswerCloseUnsaved { save: true }),
        in_prompt(ctx, PromptKind::CloseUnsaved) && either_case(code, 'n', 'N') ==> key_action(ctx, plain(code))
            == (KeyAction::AnswerCloseUnsaved { save: false }),
        in_prompt(ctx, PromptKind::CloseUnsaved) && code == KeyCode::Esc ==> key_action(ctx, plain(code))
            == KeyAction::CancelCloseAll,
        in_prompt(ctx, PromptKind::CloseTab) && (either_case(code, 'y', 'Y') || code == KeyCode::Enter) ==> key_action(ctx, plain(code))
            == (KeyAction::AnswerCloseTab { save: true }),
        in_prompt(ctx, PromptKind::CloseTab) && either_case(code, 'n', 'N') ==> key_action(ctx, plain(code))
            == (KeyAction::AnswerCloseTab { save: false }),
        in_prompt(ctx, PromptKind::CloseTab) && (code == KeyCode::Esc || either_case(code, 'c', 'C')) ==> key_action(ctx, plain(code))
            == KeyAction::ClosePrompt,
        in_prompt(ctx, PromptKind::QuitUnsaved) && (either_case(code, 'y', 'Y') || code == KeyCode::Enter) ==> key_action(ctx, plain(code))
            == KeyAction::QuitSaveCurrent,
        in_prompt(ctx, PromptKind::QuitUnsaved) && either_case(code, 'n', 'N') ==> key_action(ctx, plain(code))
            == KeyAction::QuitSkipCurrent,
        in_prompt(ctx, PromptKind::QuitUnsaved) && either_case(code, 'a', 'A') ==> key_action(ctx, plain(code))
            == KeyAction::QuitSaveAll,
        in_prompt(ctx, PromptKind::QuitUnsaved) && either_case(code, 'd', 'D') ==> key_action(ctx, plain(code))
            == KeyAction::QuitDiscardAll,
        in_prompt(ctx, PromptKind::QuitUnsaved) && (code == KeyCode::Esc || either_case(code, 'c', 'C')) ==> key_action(ctx, plain(code))
            == KeyAction::CancelQuit,
        in_prompt(ctx, PromptKind::QuitTerminal) && (either_case(code, 'y', 'Y') || code == KeyCode::Enter) ==> key_action(ctx, plain(code))
            == KeyAction::QuitSkipCurrent,
        in_prompt(ctx, PromptKind::QuitTerminal) && either_case(code, 'a', 'A') ==> key_action(ctx, plain(code))
            == KeyAction::QuitDiscardAll,
        in_prompt(ctx, PromptKind::QuitTerminal) && (either_case(code, 'n', 'N') || code == KeyCode::Esc) ==> key_action(ctx, plain(code))
            == KeyAction::CancelQuit,
        in_prompt(ctx, PromptKind::ExternalChange) && either_case(code, 'r', 'R') ==> key_action(ctx, plain(code))
            == (KeyAction::AnswerExternalChange { reload: true }),
        in_prompt(ctx, PromptKind::ExternalChange) && (either_case(code, 'k', 'K') || code == KeyCode::Esc) ==> key_action(ctx, plain(code))
            == (KeyAction::AnswerExternalChange { reload: false }),
        in_prompt(ctx, PromptKind::OpenUrl) && (either_case(code, 'y', 'Y') || code == KeyCode::Enter) ==> key_action(ctx, plain(code))
            == (KeyAction::AnswerOpenUrl { open: true }),
        in_prompt(ctx, PromptKind::OpenUrl) && (either_case(code, 'n', 'N') || code == KeyCode::Esc) ==> key_action(ctx, plain(code))
            == (KeyAction::AnswerOpenUrl { open: false }),
        in_prompt(ctx, PromptKind::NewFile) && code == KeyCode::Enter ==> key_action(ctx, plain(code))
            == KeyAction::ConfirmPrompt,
        in_prompt(ctx, PromptKind::NewFile) && code == KeyCode::Esc ==> key_action(ctx, plain(code))
            == KeyAction::ClosePrompt,
        in_prompt(ctx, PromptKind::NewFolder) && code == KeyCode::Enter ==> key_action(ctx, plain(code))
            == KeyAction::ConfirmPrompt,
        in_prompt(ctx, PromptKind::NewFolder) && code == KeyCode::Esc ==> key_action(ctx, plain(code))
            == KeyAction::ClosePrompt,
        in_prompt(ctx, PromptKind::Rename) && code == KeyCode::Enter ==> key_action(ctx, plain(code))
            == KeyAction::ConfirmPrompt,
        in_prompt(ctx, PromptKind::Rename) && code == KeyCode::Esc ==> key_action(ctx, plain(code))
            == KeyAction::ClosePrompt,
        in_prompt(ctx, PromptKind::Delete) && code == KeyCode::Enter ==> key_action(ctx, plain(code))
            == KeyAction::ConfirmPrompt,
        in_prompt(ctx, PromptKind::Delete) && code == KeyCode::Esc ==> key_action(ctx, plain(code))
            == KeyAction::ClosePrompt,
        in_prompt(ctx, PromptKind::NewFile) && (code is Char || code == KeyCode::Backspace) ==> key_action(ctx, plain(code))
            == KeyAction::EditPrompt,
        in_prompt(ctx, PromptKind::NewFolder) && (code is Char || code == KeyCode::Backspace) ==> key_action(ctx, plain(code))
            == KeyAction::EditPrompt,
        in_prompt(ctx, PromptKind::Rename) && (code is Char || code == KeyCode::Backspace) ==> key_action(ctx, plain(code))
            == KeyAction::EditPrompt,
        in_prompt(ctx, PromptKind::Delete) && code is Char ==> key_action(ctx, plain(code))
            == KeyAction::Nothing,
{
}

/// Escape calls off or says no, whatever is asked: nothing is saved, discarded,
/// deleted, reloaded or opened.
pub proof fn law_escape_never_agrees(ctx: KeyContext, key: KeyEvent)
    requires
        ctx.prompt,
        key.code == KeyCode::Esc,
    ensures
        ({
            let a = key_action(ctx, key);
            ||| a == KeyAction::CancelCloseAll
            ||| a == KeyAction::ClosePrompt
            ||| a == KeyAction::CancelQuit
            ||| a == (KeyAction::AnswerExternalChange { reload: false })
            ||| a == (KeyAction::AnswerOpenUrl { open: false })
        }),
{
}

/// In the find bar Enter and Down go to the next match, Shift with Enter and Up to
/// the one before, characters and Backspace edit the query, Control with R shows the
/// replacement, Tab goes between the two, and Escape closes the bar. In the
/// replacement Enter replaces one match, and with Shift all.
pub proof fn law_keys_in_the_find_bar(ctx: KeyContext, code: KeyCode)
    requires
        !ctx.prompt,
        ctx.top is None,
        ctx.find is Some,
    ensures
        !ctx.find->0.replace_focus && code == KeyCode::Enter ==> key_action(ctx, plain(code))
            == KeyAction::FindNext,
        !ctx.find->0.replace_focus && code == KeyCode::Down ==> key_action(ctx, plain(code))
            == KeyAction::FindNext,
        !ctx.find->0.replace_focus && code == KeyCode::Enter ==> key_action(ctx, with_shift(code))
            == KeyAction::FindPrev,
        !ctx.find->0.replace_focus && code == KeyCode::Up ==> key_action(ctx, plain(code))
            == KeyAction::FindPrev,
        !ctx.find->0.replace_focus && (code is Char || code == KeyCode::Backspace) ==> key_action(ctx, plain(code))
            == KeyAction::EditFind,
        ctx.find->0.replace_focus && code == KeyCode::Enter ==> key_action(ctx, plain(code))
            == KeyAction::ReplaceCurrent,
        ctx.find->0.replace_focus && code == KeyCode::Enter ==> key_action(ctx, with_shift(code))
            == KeyAction::ReplaceAll,
        ctx.find->0.replace_focus && (code is Char || code == KeyCode::Backspace) ==> key_action(ctx, plain(code))
            == KeyAction::EditReplace,
        either_case(code, 'r', 'R') ==> key_action(ctx, with_control(code, false))
            == KeyAction::ToggleReplace,
        code == KeyCode::Tab && ctx.find->0.replacing ==> key_action(ctx, plain(code))
            == KeyAction::ToggleFindFocus,
        code == KeyCode::Esc ==> key_action(ctx, plain(code))
            == KeyAction::CloseFind,
{
}

/// In the file dialog the arrows walk the list and open and shut folders, Enter
/// opens, Tab goes into a folder and Shift with Tab out of it, characters and
/// Backspace edit the query, and the chords make, rename, delete, show and copy.
pub proof fn law_keys_in_the_file_dialog(ctx: KeyContext, code: KeyCode)
    requires
        in_dialog(ctx, Dialog::Files),
    ensures
        code == KeyCode::Up ==> key_action(ctx, plain(code))
            == KeyAction::FilesUp,
        code == KeyCode::Down ==> key_action(ctx, plain(code))
            == KeyAction::FilesDown,
        code == KeyCode::Right ==> key_action(ctx, plain(code))
            == KeyAction::FilesExpand,
        code == KeyCode::Left ==> key_action(ctx, plain(code))
            == KeyAction::FilesCollapse,
        code == KeyCode::Enter ==> key_action(ctx, plain(code))
            == KeyAction::FilesOpen,
        code == KeyCode::Tab ==> key_action(ctx, plain(code))
            == KeyAction::FilesTab,
        code == KeyCode::Tab ==> key_action(ctx, with_shift(code))
            == KeyAction::FilesBackTab,
        code == KeyCode::BackTab ==> key_action(ctx, with_shift(code))
            == KeyAction::FilesBackTab,
        code == KeyCode::Backspace ==> key_action(ctx, plain(code))
            == KeyAction::FilesBackspace,
        code is Char ==> key_action(ctx, plain(code))
            == KeyAction::FilesInput(code->Char_0),
        code == KeyCode::Esc ==> key_action(ctx, plain(code))
            == KeyAction::CloseTopDialog,
        code == KeyCode::Char('n') ==> key_action(ctx, with_control(code, false))
            == KeyAction::FilesNewFile,
        either_case(code, 'n', 'N') ==> key_action(ctx, with_alt(code, true))
            == KeyAction::FilesNewFolder,
        code == KeyCode::Char('d') ==> key_action(ctx, with_control(code, false))
            == KeyAction::FilesDelete,
        code == KeyCode::Char('r') ==> key_action(ctx, with_control(code, false))
            == KeyAction::FilesRename,
        either_case(code, 'r', 'R') ==> key_action(ctx, with_alt(code, false))
            == KeyAction::FilesReveal,
        either_case(code, 'h', 'H') ==> key_action(ctx, with_alt(code, false))
            == KeyAction::FilesToggleJunk,
        either_case(code, 'c', 'C') ==> key_action(ctx, with_control(code, true))
            == (KeyAction::FilesCopyPath { relative: false }),
        either_case(code, 'r', 'R') ==> key_action(ctx, with_control(code, true))
            == (KeyAction::FilesCopyPath { relative: true }),
{
}

/// In every list Up goes up, Down goes down, Enter takes what is picked and Escape
/// closes the list. Left and Right turn a setting down and up; a space ticks a
/// folder, or a task while none is typed; Delete forgets a folder; and with Control
/// D removes a task, with Shift all that are done, or empties the clipboard
/// history.
pub proof fn law_keys_in_the_lists(ctx: KeyContext, code: KeyCode)
    requires
        !ctx.prompt,
    ensures
        in_dialog(ctx, Dialog::SearchFiles) && code == KeyCode::Up ==> key_action(ctx, plain(code))
            == KeyAction::SearchUp,
        in_dialog(ctx, Dialog::SearchFiles) && code == KeyCode::Down ==> key_action(ctx, plain(code))
            == KeyAction::SearchDown,
        in_dialog(ctx, Dialog::SearchFiles) && code == KeyCode::Enter ==> key_action(ctx, plain(code))
            == KeyAction::SearchOpen,
        in_dialog(ctx, Dialog::SearchFiles) && code == KeyCode::Esc ==> key_action(ctx, plain(code))
            == KeyAction::CloseTopDialog,
        in_dialog(ctx, Dialog::SearchFiles) && code is Char ==> key_action(ctx, plain(code))
            == KeyAction::EditSearch,
        in_dialog(ctx, Dialog::TerminalPicker) && code == KeyCode::Up ==> key_action(ctx, plain(code))
            == KeyAction::PickerMove(-1i32),
        in_dialog(ctx, Dialog::TerminalPicker) && code == KeyCode::Down ==> key_action(ctx, plain(code))
            == KeyAction::PickerMove(1),
        in_dialog(ctx, Dialog::TerminalPicker) && code == KeyCode::Enter ==> key_action(ctx, plain(code))
            == KeyAction::PickerConfirm,
        in_dialog(ctx, Dialog::TerminalPicker) && code == KeyCode::Esc ==> key_action(ctx, plain(code))
            == KeyAction::CloseTopDialog,
        in_dialog(ctx, Dialog::TerminalPicker) && code == KeyCode::Backspace ==> key_action(ctx, plain(code))
            == KeyAction::PickerBackspace,
        in_dialog(ctx, Dialog::TerminalPicker) && code is Char ==> key_action(ctx, plain(code))
            == KeyAction::PickerInput(code->Char_0),
        in_dialog(ctx, Dialog::Recent) && code == KeyCode::Up ==> key_action(ctx, plain(code))
            == KeyAction::RecentMove(-1i32),
        in_dialog(ctx, Dialog::Recent) && code == KeyCode::Down ==> key_action(ctx, plain(code))
            == KeyAction::RecentMove(1),
        in_dialog(ctx, Dialog::Recent) && code == KeyCode::Enter ==> key_action(ctx, plain(code))
            == KeyAction::RecentOpen,
        in_dialog(ctx, Dialog::Recent) && code == KeyCode::Esc ==> key_action(ctx, plain(code))
            == KeyAction::CloseTopDialog,
        in_dialog(ctx, Dialog::Recent) && code == KeyCode::Char(' ') ==> key_action(ctx, plain(code))
            == KeyAction::RecentToggle,
        in_dialog(ctx, Dialog::Recent) && code == KeyCode::Delete ==> key_action(ctx, plain(code))
            == KeyAction::RecentDelete,
        in_dialog(ctx, Dialog::Recent) && code == KeyCode::Backspace ==> key_action(ctx, plain(code))
            == KeyAction::RecentDelete,
        in_dialog(ctx, Dialog::Settings) && code == KeyCode::Up ==> key_action(ctx, plain(code))
            == KeyAction::SettingsFocus(-1i32),
        in_dialog(ctx, Dialog::Settings) && code == KeyCode::Down ==> key_action(ctx, plain(code))
            == KeyAction::SettingsFocus(1),
        in_dialog(ctx, Dialog::Settings) && code == KeyCode::Left ==> key_action(ctx, plain(code))
            == KeyAction::SettingsAdjust(-1i32),
        in_dialog(ctx, Dialog::Settings) && code == KeyCode::Right ==> key_action(ctx, plain(code))
            == KeyAction::SettingsAdjust(1),
        in_dialog(ctx, Dialog::Settings) && code == KeyCode::Char('-') ==> key_action(ctx, plain(code))
            == KeyAction::SettingsAdjust(-1i32),
        in_dialog(ctx, Dialog::Settings) && code == KeyCode::Char('+') ==> key_action(ctx, plain(code))
            == KeyAction::SettingsAdjust(1),
        in_dialog(ctx, Dialog::Settings) && code == KeyCode::Enter ==> key_action(ctx, plain(code))
            == KeyAction::CloseTopDialog,
        in_dialog(ctx, Dialog::Settings) && code == KeyCode::Esc ==> key_action(ctx, plain(code))
            == KeyAction::CloseTopDialog,
        in_dialog(ctx, Dialog::Todos) && code == KeyCode::Up ==> key_action(ctx, plain(code))
            == KeyAction::TodoMove(-1i32),
        in_dialog(ctx, Dialog::Todos) && code == KeyCode::Down ==> key_action(ctx, plain(code))
            == KeyAction::TodoMove(1),
        in_dialog(ctx, Dialog::Todos) && code == KeyCode::Enter ==> key_action(ctx, plain(code))
            == KeyAction::TodoAdd,
        in_dialog(ctx, Dialog::Todos) && code == KeyCode::Esc ==> key_action(ctx, plain(code))
            == KeyAction::CloseTopDialog,
        in_dialog(ctx, Dialog::Todos) && code == KeyCode::Char(' ') && ctx.todo_empty ==> key_action(ctx, plain(code))
            == KeyAction::TodoToggle,
        in_dialog(ctx, Dialog::Todos) && code == KeyCode::Char(' ') && !ctx.todo_empty ==> key_action(ctx, plain(code))
            == KeyAction::EditTodo,
        in_dialog(ctx, Dialog::Todos) && either_case(code, 'd', 'D') ==> key_action(ctx, with_control(code, false))
            == KeyAction::TodoRemove,
        in_dialog(ctx, Dialog::Todos) && either_case(code, 'd', 'D') ==> key_action(ctx, with_control(code, true))
            == KeyAction::TodoClearDone,
        in_dialog(ctx, Dialog::Todos) && either_case(code, 'e', 'E') ==> key_action(ctx, with_control(code, false))
            == KeyAction::TodoEditAsFile,
        in_dialog(ctx, Dialog::Clipboard) && code == KeyCode::Up ==> key_action(ctx, plain(code))
            == KeyAction::ClipMove(-1i32),
        in_dialog(ctx, Dialog::Clipboard) && code == KeyCode::Down ==> key_action(ctx, plain(code))
            == KeyAction::ClipMove(1),
        in_dialog(ctx, Dialog::Clipboard) && code == KeyCode::Enter ==> key_action(ctx, plain(code))
            == KeyAction::ClipPaste,
        in_dialog(ctx, Dialog::Clipboard) && code == KeyCode::Esc ==> key_action(ctx, plain(code))
            == KeyAction::CloseTopDialog,
        in_dialog(ctx, Dialog::Clipboard) && either_case(code, 'd', 'D') ==> key_action(ctx, with_control(code, false))
            == KeyAction::ClipClear,
        in_dialog(ctx, Dialog::Help) && code == KeyCode::Up ==> key_action(ctx, plain(code))
            == KeyAction::ScrollHelp(-1i32),
        in_dialog(ctx, Dialog::Help) && code == KeyCode::Down ==> key_action(ctx, plain(code))
            == KeyAction::ScrollHelp(1),
        in_dialog(ctx, Dialog::Help) && code == KeyCode::PageUp ==> key_action(ctx, plain(code))
            == KeyAction::ScrollHelp(-10i32),
        in_dialog(ctx, Dialog::Help) && code == KeyCode::PageDown ==> key_action(ctx, plain(code))
            == KeyAction::ScrollHelp(10),
        in_dialog(ctx, Dialog::Help) && code == KeyCode::Enter ==> key_action(ctx, plain(code))
            == KeyAction::CloseTopDialog,
        in_dialog(ctx, Dialog::Help) && code == KeyCode::Esc ==> key_action(ctx, plain(code))
            == KeyAction::CloseTopDialog,
{
}

/// In the terminals, Control with Tab shows the next one and with Shift the one
/// before, and the comma and full stop with Control and Shift move it; Alt with N
/// opens one, with W closes it, with G shows all, with K picks one, and with a digit
/// goes to that one. The arrows mark text with Shift, and with Alt they go by words
/// or into copy mode; Command goes to the ends of the line. Copy and paste take
/// Control and Shift. All else goes to the shell.
pub proof fn law_keys_in_the_terminals(ctx: KeyContext, code: KeyCode)
    requires
        in_dialog(ctx, Dialog::Terminal),
        !ctx.copy_mode,
    ensures
        code == KeyCode::Tab ==> key_action(ctx, with_control(code, false))
            == KeyAction::Terminal(TermAction::Next),
        code == KeyCode::Tab ==> key_action(ctx, with_control(code, true))
            == KeyAction::Terminal(TermAction::Prev),
        code == KeyCode::Char(',') ==> key_action(ctx, with_control(code, true))
            == KeyAction::Terminal(TermAction::MoveLeft),
        code == KeyCode::Char('.') ==> key_action(ctx, with_control(code, true))
            == KeyAction::Terminal(TermAction::MoveRight),
        code == KeyCode::Left ==> key_action(ctx, with_control(code, true))
            == KeyAction::Terminal(TermAction::MoveLeft),
        code == KeyCode::Right ==> key_action(ctx, with_control(code, true))
            == KeyAction::Terminal(TermAction::MoveRight),
        code == KeyCode::Left ==> key_action(ctx, with_control(code, false))
            == KeyAction::Terminal(TermAction::WordLeft),
        code == KeyCode::Right ==> key_action(ctx, with_control(code, false))
            == KeyAction::Terminal(TermAction::WordRight),
        code == KeyCode::Left ==> key_action(ctx, with_alt(code, false))
            == KeyAction::Terminal(TermAction::WordLeft),
        code == KeyCode::Right ==> key_action(ctx, with_alt(code, false))
            == KeyAction::Terminal(TermAction::WordRight),
        code == KeyCode::Up ==> key_action(ctx, with_alt(code, false))
            == KeyAction::Terminal(TermAction::EnterCopyMode { rows: -1i32 }),
        code == KeyCode::Down ==> key_action(ctx, with_alt(code, false))
            == KeyAction::Terminal(TermAction::EnterCopyMode { rows: 1 }),
        either_case(code, 'n', 'N') ==> key_action(ctx, with_alt(code, false))
            == KeyAction::Terminal(TermAction::New),
        either_case(code, 'w', 'W') ==> key_action(ctx, with_alt(code, false))
            == KeyAction::Terminal(TermAction::Close),
        either_case(code, 'g', 'G') ==> key_action(ctx, with_alt(code, false))
            == KeyAction::Terminal(TermAction::ToggleGrid),
        either_case(code, 'k', 'K') ==> key_action(ctx, with_alt(code, false))
            == KeyAction::Terminal(TermAction::OpenPicker),
        code is Char && '1' <= code->Char_0 <= '9' ==> key_action(ctx, with_alt(code, false))
            == KeyAction::Terminal(TermAction::Jump((code->Char_0 as int - 48) as usize)),
        either_case(code, 'c', 'C') ==> key_action(ctx, with_control(code, true))
            == KeyAction::Terminal(TermAction::CopySelection),
        either_case(code, 'v', 'V') ==> key_action(ctx, with_control(code, true))
            == KeyAction::Terminal(TermAction::Paste),
        either_case(code, 'c', 'C') ==> key_action(ctx, with_command(code))
            == KeyAction::Terminal(TermAction::CopySelection),
        either_case(code, 'v', 'V') ==> key_action(ctx, with_command(code))
            == KeyAction::Terminal(TermAction::Paste),
        code == KeyCode::Left ==> key_action(ctx, with_command(code))
            == KeyAction::Terminal(TermAction::LineStart),
        code == KeyCode::Right ==> key_action(ctx, with_command(code))
            == KeyAction::Terminal(TermAction::LineEnd),
        code == KeyCode::Backspace ==> key_action(ctx, with_command(code))
            == KeyAction::Terminal(TermAction::KillLine),
        code == KeyCode::Up ==> key_action(ctx, with_shift(code))
            == KeyAction::Terminal(TermAction::Select { rows: -1i32, cols: 0 }),
        code == KeyCode::Down ==> key_action(ctx, with_shift(code))
            == KeyAction::Terminal(TermAction::Select { rows: 1, cols: 0 }),
        code == KeyCode::Left ==> key_action(ctx, with_shift(code))
            == KeyAction::Terminal(TermAction::Select { rows: 0, cols: -1i32 }),
        code == KeyCode::Right ==> key_action(ctx, with_shift(code))
            == KeyAction::Terminal(TermAction::Select { rows: 0, cols: 1 }),
        code == KeyCode::Left ==> key_action(ctx, with_alt(code, true))
            == KeyAction::Terminal(TermAction::SelectWord(-1i32)),
        code == KeyCode::Right ==> key_action(ctx, with_alt(code, true))
            == KeyAction::Terminal(TermAction::SelectWord(1)),
        code == KeyCode::PageUp ==> key_action(ctx, with_shift(code))
            == KeyAction::Terminal(TermAction::ScrollPage(1)),
        code == KeyCode::PageDown ==> key_action(ctx, with_shift(code))
            == KeyAction::Terminal(TermAction::ScrollPage(-1i32)),
        code is Char ==> key_action(ctx, plain(code))
            == KeyAction::Terminal(TermAction::SendKey),
        code == KeyCode::Enter ==> key_action(ctx, plain(code))
            == KeyAction::Terminal(TermAction::SendKey),
        code == KeyCode::Backspace ==> key_action(ctx, plain(code))
            == KeyAction::Terminal(TermAction::SendKey),
        code == KeyCode::Esc ==> key_action(ctx, plain(code))
            == KeyAction::Terminal(TermAction::SendKey),
        code == KeyCode::Tab ==> key_action(ctx, plain(code))
            == KeyAction::Terminal(TermAction::SendKey),
        (code == KeyCode::Left || code == KeyCode::Right || code == KeyCode::Up || code == KeyCode::Down) ==> key_action(ctx, plain(code))
            == KeyAction::Terminal(TermAction::SendKey),
        either_case(code, 'c', 'C') ==> key_action(ctx, with_control(code, false))
            == KeyAction::Terminal(TermAction::SendKey),
        either_case(code, 'd', 'D') ==> key_action(ctx, with_control(code, false))
            == KeyAction::Terminal(TermAction::SendKey),
{
}

/// In copy mode the arrows, or H, J, K and L, move the cursor, with Alt by words,
/// and select with Shift; Enter or Y copies and leaves, and Escape or Q leaves.
pub proof fn law_keys_in_copy_mode(ctx: KeyContext, code: KeyCode)
    requires
        in_dialog(ctx, Dialog::Terminal),
        ctx.copy_mode,
    ensures
        (code == KeyCode::Left || code == KeyCode::Char('h')) ==> key_action(ctx, plain(code))
            == KeyAction::Terminal(TermAction::CopyMove { rows: 0, cols: -1i32, select: false }),
        (code == KeyCode::Right || code == KeyCode::Char('l')) ==> key_action(ctx, plain(code))
            == KeyAction::Terminal(TermAction::CopyMove { rows: 0, cols: 1, select: false }),
        (code == KeyCode::Up || code == KeyCode::Char('k')) ==> key_action(ctx, plain(code))
            == KeyAction::Terminal(TermAction::CopyMove { rows: -1i32, cols: 0, select: false }),
        (code == KeyCode::Down || code == KeyCode::Char('j')) ==> key_action(ctx, plain(code))
            == KeyAction::Terminal(TermAction::CopyMove { rows: 1, cols: 0, select: false }),
        code == KeyCode::Left ==> key_action(ctx, with_shift(code))
            == KeyAction::Terminal(TermAction::CopyMove { rows: 0, cols: -1i32, select: true }),
        code == KeyCode::Right ==> key_action(ctx, with_shift(code))
            == KeyAction::Terminal(TermAction::CopyMove { rows: 0, cols: 1, select: true }),
        code == KeyCode::Up ==> key_action(ctx, with_shift(code))
            == KeyAction::Terminal(TermAction::CopyMove { rows: -1i32, cols: 0, select: true }),
        code == KeyCode::Down ==> key_action(ctx, with_shift(code))
            == KeyAction::Terminal(TermAction::CopyMove { rows: 1, cols: 0, select: true }),
        code == KeyCode::Left ==> key_action(ctx, with_alt(code, false))
            == KeyAction::Terminal(TermAction::CopyMoveWord { dir: -1i32, select: false }),
        code == KeyCode::Right ==> key_action(ctx, with_alt(code, false))
            == KeyAction::Terminal(TermAction::CopyMoveWord { dir: 1, select: false }),
        (code == KeyCode::Enter || either_case(code, 'y', 'Y')) ==> key_action(ctx, plain(code))
            == KeyAction::Terminal(TermAction::CopyAndExit),
        (code == KeyCode::Esc || either_case(code, 'q', 'Q')) ==> key_action(ctx, plain(code))
            == KeyAction::Terminal(TermAction::ExitCopyMode),
        code == KeyCode::PageUp ==> key_action(ctx, plain(code))
            == KeyAction::Terminal(TermAction::ScrollPage(1)),
        code == KeyCode::PageDown ==> key_action(ctx, plain(code))
            == KeyAction::Terminal(TermAction::ScrollPage(-1i32)),
{
}

} // verus!
