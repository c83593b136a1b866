//! Keys in the editor, with no dialog open.

use crate::buffer::state::Move;
use crate::input::actions::KeyAction;
use crate::input::EditorContext;
use crate::keyevent::{is_letter, KeyCode, KeyEvent};
use vstd::prelude::*;

verus! {

/// Where an arrow, Home or End takes the carets.
pub open spec fn arrow_move(code: KeyCode, by_word: bool) -> Option<Move> {
    match code {
        KeyCode::Left => Some(if by_word {
            Move::WordLeft
        } else {
            Move::Left
        }),
        KeyCode::Right => Some(if by_word {
            Move::WordRight
        } else {
            Move::Right
        }),
        KeyCode::Up => Some(Move::Up),
        KeyCode::Down => Some(Move::Down),
        KeyCode::Home => Some(Move::Home),
        KeyCode::End => Some(Move::End),
        _ => None,
    }
}

/// What a key typed into an open file asks for.
pub open spec fn typing_action(
    ed: EditorContext,
    code: KeyCode,
    alt: bool,
    shift: bool,
) -> KeyAction {
    if ed.selecting && (code == KeyCode::Delete || code == KeyCode::Backspace) {
        KeyAction::DeleteSelection
    } else if arrow_move(code, alt) is Some {
        KeyAction::MoveCarets { to: arrow_move(code, alt)->0, select: shift }
    } else {
        match code {
            KeyCode::Char(c) => KeyAction::InsertChar(c),
            KeyCode::Enter => KeyAction::Newline,
            KeyCode::BackTab => KeyAction::Outdent,
            KeyCode::Tab => if shift {
                KeyAction::Outdent
            } else if ed.selecting && ed.multiline {
                KeyAction::Indent
            } else {
                KeyAction::InsertSoftTab
            },
            KeyCode::Backspace => if alt {
                KeyAction::DeleteWordLeft
            } else {
                KeyAction::Backspace
            },
            KeyCode::Delete => KeyAction::Delete,
            _ => KeyAction::Nothing,
        }
    }
}

/// What a chord with Control asks of the editor.
pub open spec fn control_action(code: KeyCode, shift: bool) -> KeyAction {
    if is_letter(code, 'd', 'D') {
        KeyAction::AddNextOccurrence
    } else if code == KeyCode::Left {
        KeyAction::MoveCarets { to: Move::Home, select: shift }
    } else if code == KeyCode::Right {
        KeyAction::MoveCarets { to: Move::End, select: shift }
    } else if code == KeyCode::Up {
        KeyAction::MoveCarets { to: Move::DocStart, select: shift }
    } else if code == KeyCode::Down {
        KeyAction::MoveCarets { to: Move::DocEnd, select: shift }
    } else if code == KeyCode::Backspace {
        KeyAction::DeleteToLineStart
    } else if is_letter(code, 's', 'S') {
        if shift {
            KeyAction::SaveAll
        } else {
            KeyAction::SaveActive
        }
    } else if is_letter(code, 'w', 'W') {
        if shift {
            KeyAction::CloseAll
        } else {
            KeyAction::CloseTab
        }
    } else if is_letter(code, 'f', 'F') {
        KeyAction::OpenFind
    } else if is_letter(code, 't', 'T') && shift {
        KeyAction::ReopenTab
    } else if code == KeyCode::Char('\\') {
        KeyAction::ToggleGrid
    } else if is_letter(code, 'a', 'A') {
        KeyAction::SelectAll
    } else if is_letter(code, 'c', 'C') {
        if shift {
            KeyAction::CopyPath { relative: false }
        } else {
            KeyAction::CopySelection
        }
    } else if is_letter(code, 'r', 'R') && shift {
        KeyAction::CopyPath { relative: true }
    } else if is_letter(code, 'x', 'X') {
        KeyAction::CutSelection
    } else if is_letter(code, 'v', 'V') {
        KeyAction::Paste
    } else if is_letter(code, 'z', 'Z') {
        if shift {
            KeyAction::Redo
        } else {
            KeyAction::Undo
        }
    } else if is_letter(code, 'y', 'Y') {
        KeyAction::Redo
    } else if code == KeyCode::Char('<') || code == KeyCode::Char(',') && shift {
        KeyAction::MoveTabLeft
    } else if code == KeyCode::Char('>') || code == KeyCode::Char('.') && shift {
        KeyAction::MoveTabRight
    } else if code == KeyCode::Tab && !shift {
        KeyAction::NextTab
    } else if code == KeyCode::Tab || code == KeyCode::BackTab {
        KeyAction::PrevTab
    } else {
        KeyAction::Nothing
    }
}

/// What a key asks of the editor, with no dialog open.
pub open spec fn editor_action(
    editor: Option<EditorContext>,
    code: KeyCode,
    ctrl: bool,
    alt: bool,
    shift: bool,
) -> KeyAction {
    if code == KeyCode::Esc {
        KeyAction::ClearCarets
    } else if ctrl {
        control_action(code, shift)
    } else if editor is Some {
        typing_action(editor->0, code, alt, shift)
    } else {
        KeyAction::Nothing
    }
}

/// Keys in the editor, with no dialog open: the chords with Control, and
/// typing into the open file.
pub fn handle_editor_context(
    editor: Option<EditorContext>,
    key: &KeyEvent,
    ctrl: bool,
    alt: bool,
    shift: bool,
) -> (r: KeyAction)
    ensures
        r == editor_action(editor, key.code, ctrl, alt, shift),
{
    if key.code == KeyCode::Esc {
        return KeyAction::ClearCarets;
    }
    if ctrl {
        return match key.code {
            KeyCode::Char('d') | KeyCode::Char('D') => KeyAction::AddNextOccurrence,
            KeyCode::Left => KeyAction::MoveCarets { to: Move::Home, select: shift },
            KeyCode::Right => KeyAction::MoveCarets { to: Move::End, select: shift },
            KeyCode::Up => KeyAction::MoveCarets { to: Move::DocStart, select: shift },
            KeyCode::Down => KeyAction::MoveCarets { to: Move::DocEnd, select: shift },
            KeyCode::Backspace => KeyAction::DeleteToLineStart,
            // Shift makes saving and closing mean all files.
            KeyCode::Char(c) if shift && (c == 's' || c == 'S') => KeyAction::SaveAll,
            KeyCode::Char('s') | KeyCode::Char('S') => KeyAction::SaveActive,
            KeyCode::Char(c) if shift && (c == 'w' || c == 'W') => KeyAction::CloseAll,
            KeyCode::Char('w') | KeyCode::Char('W') => KeyAction::CloseTab,
            KeyCode::Char('f') | KeyCode::Char('F') => KeyAction::OpenFind,
            KeyCode::Char(c) if shift && (c == 't' || c == 'T') => KeyAction::ReopenTab,
            KeyCode::Char('\\') => KeyAction::ToggleGrid,
            KeyCode::Char('a') | KeyCode::Char('A') => KeyAction::SelectAll,
            KeyCode::Char(c) if shift && (c == 'c' || c == 'C') => KeyAction::CopyPath {
                relative: false,
            },
            KeyCode::Char(c) if shift && (c == 'r' || c == 'R') => KeyAction::CopyPath {
                relative: true,
            },
            KeyCode::Char('c') | KeyCode::Char('C') => KeyAction::CopySelection,
            KeyCode::Char('x') | KeyCode::Char('X') => KeyAction::CutSelection,
            KeyCode::Char('v') | KeyCode::Char('V') => KeyAction::Paste,
            KeyCode::Char(c) if shift && (c == 'z' || c == 'Z') => KeyAction::Redo,
            KeyCode::Char('z') | KeyCode::Char('Z') => KeyAction::Undo,
            KeyCode::Char('y') | KeyCode::Char('Y') => KeyAction::Redo,
            KeyCode::Char('<') => KeyAction::MoveTabLeft,
            KeyCode::Char('>') => KeyAction::MoveTabRight,
            KeyCode::Char(',') if shift => KeyAction::MoveTabLeft,
            KeyCode::Char('.') if shift => KeyAction::MoveTabRight,
            KeyCode::Tab if shift => KeyAction::PrevTab,
            KeyCode::Tab => KeyAction::NextTab,
            KeyCode::BackTab => KeyAction::PrevTab,
            // Any other chord does nothing, and types nothing.
            _ => KeyAction::Nothing,
        };
    }
    match editor {
        Some(ed) => handle_editor(&ed, key, alt, shift),
        None => KeyAction::Nothing,
    }
}

/// A key typed into an open file.
fn handle_editor(ed: &EditorContext, key: &KeyEvent, alt: bool, shift: bool) -> (r: KeyAction)
    ensures
        r == typing_action(*ed, key.code, alt, shift),
{
    match key.code {
        KeyCode::Delete if ed.selecting => KeyAction::DeleteSelection,
        KeyCode::Backspace if ed.selecting => KeyAction::DeleteSelection,
        KeyCode::Backspace if alt => KeyAction::DeleteWordLeft,
        KeyCode::Char(c) => KeyAction::InsertChar(c),
        KeyCode::Enter => KeyAction::Newline,
        KeyCode::Tab if shift => KeyAction::Outdent,
        KeyCode::BackTab => KeyAction::Outdent,
        KeyCode::Tab if ed.selecting && ed.multiline => KeyAction::Indent,
        KeyCode::Tab => KeyAction::InsertSoftTab,
        KeyCode::Backspace => KeyAction::Backspace,
        KeyCode::Delete => KeyAction::Delete,
        KeyCode::Left if alt => KeyAction::MoveCarets { to: Move::WordLeft, select: shift },
        KeyCode::Right if alt => KeyAction::MoveCarets { to: Move::WordRight, select: shift },
        KeyCode::Left => KeyAction::MoveCarets { to: Move::Left, select: shift },
        KeyCode::Right => KeyAction::MoveCarets { to: Move::Right, select: shift },
        KeyCode::Up => KeyAction::MoveCarets { to: Move::Up, select: shift },
        KeyCode::Down => KeyAction::MoveCarets { to: Move::Down, select: shift },
        KeyCode::Home => KeyAction::MoveCarets { to: Move::Home, select: shift },
        KeyCode::End => KeyAction::MoveCarets { to: Move::End, select: shift },
        _ => KeyAction::Nothing,
    }
}

} // verus!
