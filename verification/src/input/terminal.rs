//! Keys in the dialog of the terminals.

use crate::input::actions::{KeyAction, TermAction, BACK};
use crate::input::bytes::{key_bytes, key_to_bytes, opt_bytes, ESC};
use crate::keyevent::{is_letter, KeyCode, KeyEvent};
use vstd::prelude::*;

verus! {

/// What a key asks for in copy mode.
pub open spec fn copy_mode_action(key: KeyEvent) -> Option<TermAction> {
    let m = key.modifiers;
    let code = key.code;
    if code == KeyCode::Esc || is_letter(code, 'q', 'Q') {
        Some(TermAction::ExitCopyMode)
    } else if code == KeyCode::Enter || is_letter(code, 'y', 'Y') || (is_letter(code, 'c', 'C') && (
    m.sup || m.control && m.shift)) {
        Some(TermAction::CopyAndExit)
    } else if code == KeyCode::Left && m.alt {
        Some(TermAction::CopyMoveWord { dir: BACK, select: m.shift })
    } else if code == KeyCode::Right && m.alt {
        Some(TermAction::CopyMoveWord { dir: 1, select: m.shift })
    } else if code == KeyCode::Left || code == KeyCode::Char('h') {
        Some(TermAction::CopyMove { rows: 0, cols: BACK, select: m.shift })
    } else if code == KeyCode::Right || code == KeyCode::Char('l') {
        Some(TermAction::CopyMove { rows: 0, cols: 1, select: m.shift })
    } else if code == KeyCode::Up || code == KeyCode::Char('k') {
        Some(TermAction::CopyMove { rows: BACK, cols: 0, select: m.shift })
    } else if code == KeyCode::Down || code == KeyCode::Char('j') {
        Some(TermAction::CopyMove { rows: 1, cols: 0, select: m.shift })
    } else if code == KeyCode::PageUp {
        Some(TermAction::ScrollPage(1))
    } else if code == KeyCode::PageDown {
        Some(TermAction::ScrollPage(BACK))
    } else {
        None
    }
}

/// Keys in copy mode: a free cursor over the screen that selects text. Nothing
/// reaches the shell.
fn handle_terminal_copy_mode(key: &KeyEvent) -> (r: Option<TermAction>)
    ensures
        r == copy_mode_action(*key),
{
    let shift = key.modifiers.shift;
    let copies = key.modifiers.sup || key.modifiers.control && shift;
    match key.code {
        KeyCode::Esc | KeyCode::Char('q') | KeyCode::Char('Q') => Some(TermAction::ExitCopyMode),
        KeyCode::Enter | KeyCode::Char('y') | KeyCode::Char('Y') => Some(TermAction::CopyAndExit),
        KeyCode::Char(c) if copies && (c == 'c' || c == 'C') => Some(TermAction::CopyAndExit),
        KeyCode::Left if key.modifiers.alt => Some(
            TermAction::CopyMoveWord { dir: BACK, select: shift },
        ),
        KeyCode::Right if key.modifiers.alt => Some(
            TermAction::CopyMoveWord { dir: 1, select: shift },
        ),
        KeyCode::Left | KeyCode::Char('h') => Some(
            TermAction::CopyMove { rows: 0, cols: BACK, select: shift },
        ),
        KeyCode::Right | KeyCode::Char('l') => Some(
            TermAction::CopyMove { rows: 0, cols: 1, select: shift },
        ),
        KeyCode::Up | KeyCode::Char('k') => Some(
            TermAction::CopyMove { rows: BACK, cols: 0, select: shift },
        ),
        KeyCode::Down | KeyCode::Char('j') => Some(
            TermAction::CopyMove { rows: 1, cols: 0, select: shift },
        ),
        KeyCode::PageUp => Some(TermAction::ScrollPage(1)),
        KeyCode::PageDown => Some(TermAction::ScrollPage(BACK)),
        _ => None,
    }
}

/// The chords with Control: the row of terminals, and movement by word.
pub open spec fn control_chord(code: KeyCode, shift: bool) -> Option<TermAction> {
    if code == KeyCode::BackTab || code == KeyCode::Tab && shift {
        Some(TermAction::Prev)
    } else if code == KeyCode::Tab {
        Some(TermAction::Next)
    } else if code == KeyCode::Char('<') || shift && (code == KeyCode::Left || code
        == KeyCode::Char(',')) {
        Some(TermAction::MoveLeft)
    } else if code == KeyCode::Char('>') || shift && (code == KeyCode::Right || code
        == KeyCode::Char('.')) {
        Some(TermAction::MoveRight)
    } else if code == KeyCode::Left {
        Some(TermAction::WordLeft)
    } else if code == KeyCode::Right {
        Some(TermAction::WordRight)
    } else {
        None
    }
}

/// The chords that copy the selection and paste.
pub open spec fn clip_chord(code: KeyCode) -> Option<TermAction> {
    if is_letter(code, 'c', 'C') {
        Some(TermAction::CopySelection)
    } else if is_letter(code, 'v', 'V') {
        Some(TermAction::Paste)
    } else {
        None
    }
}

/// The chords with Alt that pick a terminal.
pub open spec fn pick_chord(code: KeyCode) -> Option<TermAction> {
    match code {
        KeyCode::Char(c) => if c == 'k' || c == 'K' {
            Some(TermAction::OpenPicker)
        } else if '1' <= c <= '9' {
            Some(TermAction::Jump((c as int - '0' as int) as usize))
        } else {
            None
        },
        _ => None,
    }
}

/// The chords with Command that edit the line in the shell.
pub open spec fn line_chord(code: KeyCode) -> Option<TermAction> {
    if code == KeyCode::Left {
        Some(TermAction::LineStart)
    } else if code == KeyCode::Right {
        Some(TermAction::LineEnd)
    } else if code == KeyCode::Backspace {
        Some(TermAction::KillLine)
    } else {
        None
    }
}

/// The chords with Shift that scroll, and that mark text.
pub open spec fn mark_chord(code: KeyCode, alt: bool) -> Option<TermAction> {
    match code {
        KeyCode::PageUp => Some(TermAction::ScrollPage(1)),
        KeyCode::PageDown => Some(TermAction::ScrollPage(BACK)),
        KeyCode::Up => Some(TermAction::Select { rows: BACK, cols: 0 }),
        KeyCode::Down => Some(TermAction::Select { rows: 1, cols: 0 }),
        KeyCode::Left => Some(
            if alt {
                TermAction::SelectWord(BACK)
            } else {
                TermAction::Select { rows: 0, cols: BACK }
            },
        ),
        KeyCode::Right => Some(
            if alt {
                TermAction::SelectWord(1)
            } else {
                TermAction::Select { rows: 0, cols: 1 }
            },
        ),
        _ => None,
    }
}

/// The chords with Alt that move by word, enter copy mode, and manage the
/// terminals.
pub open spec fn alt_chord(code: KeyCode) -> Option<KeyAction> {
    if code == KeyCode::Left {
        Some(KeyAction::Terminal(TermAction::WordLeft))
    } else if code == KeyCode::Right {
        Some(KeyAction::Terminal(TermAction::WordRight))
    } else if code == KeyCode::Up {
        Some(KeyAction::Terminal(TermAction::EnterCopyMode { rows: BACK }))
    } else if code == KeyCode::Down {
        Some(KeyAction::Terminal(TermAction::EnterCopyMode { rows: 1 }))
    } else if is_letter(code, 't', 'T') {
        Some(KeyAction::ToggleTerminal)
    } else if is_letter(code, 'n', 'N') {
        Some(KeyAction::Terminal(TermAction::New))
    } else if is_letter(code, 'w', 'W') {
        Some(KeyAction::Terminal(TermAction::Close))
    } else if is_letter(code, 'g', 'G') {
        Some(KeyAction::Terminal(TermAction::ToggleGrid))
    } else {
        None
    }
}

/// An action of the terminals, or nothing.
pub open spec fn as_action(a: Option<TermAction>) -> KeyAction {
    match a {
        Some(t) => KeyAction::Terminal(t),
        None => KeyAction::Nothing,
    }
}

/// What a key asks for while the dialog of the terminals has the focus. The
/// first rule that knows the key decides; a key that none knows goes to the
/// shell.
pub open spec fn terminal_action(copy_mode: bool, alternate_screen: bool, key: KeyEvent) -> KeyAction {
    let m = key.modifiers;
    let code = key.code;
    if copy_mode {
        as_action(copy_mode_action(key))
    } else if m.control && control_chord(code, m.shift) is Some {
        as_action(control_chord(code, m.shift))
    } else if (m.sup || m.control && m.shift) && clip_chord(code) is Some {
        as_action(clip_chord(code))
    } else if m.alt && pick_chord(code) is Some {
        as_action(pick_chord(code))
    } else if m.sup && line_chord(code) is Some {
        as_action(line_chord(code))
    } else if m.shift && mark_chord(code, m.alt) is Some {
        as_action(mark_chord(code, m.alt))
    } else if m.alt && alt_chord(code) is Some {
        alt_chord(code)->0
    } else if code == KeyCode::PageUp && !alternate_screen {
        KeyAction::Terminal(TermAction::ScrollPage(1))
    } else if code == KeyCode::PageDown && !alternate_screen {
        KeyAction::Terminal(TermAction::ScrollPage(BACK))
    } else if key_bytes(key) is Some {
        KeyAction::Terminal(TermAction::SendKey)
    } else {
        KeyAction::Nothing
    }
}

/// Keys while the dialog of the terminals has the focus. The modifiers count as
/// they are pressed, so that a chord reaches the shell unless it manages the
/// terminals, copies, pastes, scrolls or marks text.
pub fn handle_terminal_modal(copy_mode: bool, alternate_screen: bool, key: &KeyEvent) -> (r:
    KeyAction)
    ensures
        r == terminal_action(copy_mode, alternate_screen, *key),
{
    let ctrl = key.modifiers.control;
    let shift = key.modifiers.shift;
    let sup = key.modifiers.sup;
    let alt = key.modifiers.alt;

    if copy_mode {
        return match handle_terminal_copy_mode(key) {
            Some(a) => KeyAction::Terminal(a),
            None => KeyAction::Nothing,
        };
    }
    if ctrl {
        match key.code {
            KeyCode::BackTab => return KeyAction::Terminal(TermAction::Prev),
            KeyCode::Tab if shift => return KeyAction::Terminal(TermAction::Prev),
            KeyCode::Tab => return KeyAction::Terminal(TermAction::Next),
            KeyCode::Left if shift => return KeyAction::Terminal(TermAction::MoveLeft),
            KeyCode::Right if shift => return KeyAction::Terminal(TermAction::MoveRight),
            KeyCode::Char('<') => return KeyAction::Terminal(TermAction::MoveLeft),
            KeyCode::Char('>') => return KeyAction::Terminal(TermAction::MoveRight),
            KeyCode::Char(',') if shift => return KeyAction::Terminal(TermAction::MoveLeft),
            KeyCode::Char('.') if shift => return KeyAction::Terminal(TermAction::MoveRight),
            KeyCode::Left => return KeyAction::Terminal(TermAction::WordLeft),
            KeyCode::Right => return KeyAction::Terminal(TermAction::WordRight),
            _ => {},
        }
    }
    if sup || ctrl && shift {
        match key.code {
            KeyCode::Char('c') | KeyCode::Char('C') => return KeyAction::Terminal(
                TermAction::CopySelection,
            ),
            KeyCode::Char('v') | KeyCode::Char('V') => return KeyAction::Terminal(
                TermAction::Paste,
            ),
            _ => {},
        }
    }
    if alt {
        match key.code {
            KeyCode::Char('k') | KeyCode::Char('K') => return KeyAction::Terminal(
                TermAction::OpenPicker,
            ),
            KeyCode::Char(c) if '1' <= c && c <= '9' => {
                return KeyAction::Terminal(TermAction::Jump((c as u8 - 0x30) as usize));
            },
            _ => {},
        }
    }
    if sup {
        match key.code {
            KeyCode::Left => return KeyAction::Terminal(TermAction::LineStart),
            KeyCode::Right => return KeyAction::Terminal(TermAction::LineEnd),
            KeyCode::Backspace => return KeyAction::Terminal(TermAction::KillLine),
            _ => {},
        }
    }
    if shift {
        match key.code {
            KeyCode::PageUp => return KeyAction::Terminal(TermAction::ScrollPage(1)),
            KeyCode::PageDown => return KeyAction::Terminal(TermAction::ScrollPage(BACK)),
            KeyCode::Up => return KeyAction::Terminal(TermAction::Select { rows: BACK, cols: 0 }),
            KeyCode::Down => return KeyAction::Terminal(TermAction::Select { rows: 1, cols: 0 }),
            KeyCode::Left if alt => return KeyAction::Terminal(TermAction::SelectWord(BACK)),
            KeyCode::Left => return KeyAction::Terminal(TermAction::Select { rows: 0, cols: BACK }),
            KeyCode::Right if alt => return KeyAction::Terminal(TermAction::SelectWord(1)),
            KeyCode::Right => return KeyAction::Terminal(TermAction::Select { rows: 0, cols: 1 }),
            _ => {},
        }
    }
    if alt {
        match key.code {
            KeyCode::Left => return KeyAction::Terminal(TermAction::WordLeft),
            KeyCode::Right => return KeyAction::Terminal(TermAction::WordRight),
            KeyCode::Up => return KeyAction::Terminal(TermAction::EnterCopyMode { rows: BACK }),
            KeyCode::Down => return KeyAction::Terminal(TermAction::EnterCopyMode { rows: 1 }),
            KeyCode::Char('t') | KeyCode::Char('T') => return KeyAction::ToggleTerminal,
            KeyCode::Char('n') | KeyCode::Char('N') => return KeyAction::Terminal(TermAction::New),
            KeyCode::Char('w') | KeyCode::Char('W') => return KeyAction::Terminal(
                TermAction::Close,
            ),
            KeyCode::Char('g') | KeyCode::Char('G') => return KeyAction::Terminal(
                TermAction::ToggleGrid,
            ),
            _ => {},
        }
    }
    // A full-screen program gets the page keys; at the shell they scroll back.
    if !alternate_screen {
        match key.code {
            KeyCode::PageUp => return KeyAction::Terminal(TermAction::ScrollPage(1)),
            KeyCode::PageDown => return KeyAction::Terminal(TermAction::ScrollPage(BACK)),
            _ => {},
        }
    }
    match key_to_bytes(key) {
        Some(_) => KeyAction::Terminal(TermAction::SendKey),
        None => KeyAction::Nothing,
    }
}

/// The bytes that an action sends to the shell.
pub open spec fn sent_bytes(action: TermAction, key: KeyEvent) -> Option<Seq<u8>> {
    match action {
        TermAction::WordLeft => Some(seq![ESC, 0x62u8]),
        TermAction::WordRight => Some(seq![ESC, 0x66u8]),
        TermAction::LineStart => Some(seq![0x01u8]),
        TermAction::LineEnd => Some(seq![0x05u8]),
        TermAction::KillLine => Some(seq![0x15u8]),
        TermAction::SendKey => key_bytes(key),
        _ => None,
    }
}

/// The bytes that an action sends to the shell: what the shell's line editor
/// reads as a movement by word, the ends of the line and a deletion to its
/// start, or the key itself.
pub fn bytes_for(action: TermAction, key: &KeyEvent) -> (r: Option<Vec<u8>>)
    ensures
        opt_bytes(r) == sent_bytes(action, *key),
{
    match action {
        TermAction::WordLeft => Some(vec![ESC, 0x62]),
        TermAction::WordRight => Some(vec![ESC, 0x66]),
        TermAction::LineStart => Some(vec![0x01]),
        TermAction::LineEnd => Some(vec![0x05]),
        TermAction::KillLine => Some(vec![0x15]),
        TermAction::SendKey => key_to_bytes(key),
        _ => None,
    }
}

} // verus!
