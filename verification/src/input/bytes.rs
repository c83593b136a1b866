//! What a shell reads when a key is pressed.

use crate::chars::{ascii_lower, to_ascii_lower};
use crate::keyevent::{KeyCode, KeyEvent};
use crate::strings::one_char;
use vstd::prelude::*;
use vstd::string::*;
use vstd::utf8::encode_utf8;

verus! {

/// The escape character.
pub const ESC: u8 = 0x1b;

/// Whether `c` is an ASCII letter.
pub open spec fn is_ascii_letter(c: char) -> bool {
    'a' <= c <= 'z' || 'A' <= c <= 'Z'
}

/// The bytes of a typed character: Control makes a letter its control code,
/// anything else is sent as UTF-8.
pub open spec fn char_bytes(c: char, ctrl: bool) -> Seq<u8> {
    if ctrl && is_ascii_letter(c) {
        seq![(ascii_lower(c) as int - 'a' as int + 1) as u8]
    } else {
        encode_utf8(seq![c])
    }
}

/// The bytes of a key that is not a character, with no modifier.
pub open spec fn named_bytes(code: KeyCode) -> Option<Seq<u8>> {
    match code {
        KeyCode::Enter => Some(seq![0x0du8]),
        KeyCode::Backspace => Some(seq![0x7fu8]),
        KeyCode::Tab => Some(seq![0x09u8]),
        KeyCode::BackTab => Some(seq![ESC, 0x5bu8, 0x5au8]),
        KeyCode::Esc => Some(seq![ESC]),
        KeyCode::Left => Some(seq![ESC, 0x5bu8, 0x44u8]),
        KeyCode::Right => Some(seq![ESC, 0x5bu8, 0x43u8]),
        KeyCode::Up => Some(seq![ESC, 0x5bu8, 0x41u8]),
        KeyCode::Down => Some(seq![ESC, 0x5bu8, 0x42u8]),
        KeyCode::Home => Some(seq![ESC, 0x5bu8, 0x48u8]),
        KeyCode::End => Some(seq![ESC, 0x5bu8, 0x46u8]),
        KeyCode::Delete => Some(seq![ESC, 0x5bu8, 0x33u8, 0x7eu8]),
        KeyCode::PageUp => Some(seq![ESC, 0x5bu8, 0x35u8, 0x7eu8]),
        KeyCode::PageDown => Some(seq![ESC, 0x5bu8, 0x36u8, 0x7eu8]),
        _ => None,
    }
}

/// The bytes that a key is sent as. Alt puts an escape before a character
/// without Control, before Enter and before Backspace; Shift turns Enter into a
/// line feed.
pub open spec fn key_bytes(key: KeyEvent) -> Option<Seq<u8>> {
    let m = key.modifiers;
    match key.code {
        KeyCode::Char(c) => Some(
            if m.alt && !m.control {
                seq![ESC] + char_bytes(c, false)
            } else {
                char_bytes(c, m.control)
            },
        ),
        KeyCode::Enter => Some(
            if m.alt {
                seq![ESC, 0x0du8]
            } else if m.shift {
                seq![0x0au8]
            } else {
                seq![0x0du8]
            },
        ),
        KeyCode::Backspace => Some(
            if m.alt {
                seq![ESC, 0x7fu8]
            } else {
                seq![0x7fu8]
            },
        ),
        _ => named_bytes(key.code),
    }
}

/// The bytes, where there are any.
pub open spec fn opt_bytes(o: Option<Vec<u8>>) -> Option<Seq<u8>> {
    match o {
        Some(v) => Some(v@),
        None => None,
    }
}

/// The bytes that a key is sent to a shell as, or none for a key that has no
/// encoding.
pub fn key_to_bytes(key: &KeyEvent) -> (r: Option<Vec<u8>>)
    ensures
        opt_bytes(r) == key_bytes(*key),
        key.code == KeyCode::Up ==> opt_bytes(r) == Some(seq![0x1bu8, 0x5bu8, 0x41u8]),
        key.code == KeyCode::Down ==> opt_bytes(r) == Some(seq![0x1bu8, 0x5bu8, 0x42u8]),
        key.code == KeyCode::Right ==> opt_bytes(r) == Some(seq![0x1bu8, 0x5bu8, 0x43u8]),
        key.code == KeyCode::Left ==> opt_bytes(r) == Some(seq![0x1bu8, 0x5bu8, 0x44u8]),
{
    let ctrl = key.modifiers.control;
    let alt = key.modifiers.alt;
    let shift = key.modifiers.shift;
    // Programs read these as a line break that does not submit.
    if key.code == KeyCode::Enter {
        if alt {
            return Some(vec![ESC, 0x0d]);
        }
        if shift {
            return Some(vec![0x0a]);
        }
    }
    if key.code == KeyCode::Backspace && alt {
        return Some(vec![ESC, 0x7f]);
    }
    let mut bytes: Vec<u8> = match key.code {
        KeyCode::Char(c) => {
            if ctrl && ('a' <= c && c <= 'z' || 'A' <= c && c <= 'Z') {
                let low: u8 = to_ascii_lower(c) as u8;
                let code: u8 = low - 0x61 + 1;
                vec![code]
            } else {
                let text = one_char(c);
                text.as_str().as_bytes_vec()
            }
        },
        KeyCode::Enter => vec![0x0d],
        KeyCode::Backspace => vec![0x7f],
        KeyCode::Tab => vec![0x09],
        KeyCode::BackTab => vec![ESC, 0x5b, 0x5a],
        KeyCode::Esc => vec![ESC],
        KeyCode::Left => vec![ESC, 0x5b, 0x44],
        KeyCode::Right => vec![ESC, 0x5b, 0x43],
        KeyCode::Up => vec![ESC, 0x5b, 0x41],
        KeyCode::Down => vec![ESC, 0x5b, 0x42],
        KeyCode::Home => vec![ESC, 0x5b, 0x48],
        KeyCode::End => vec![ESC, 0x5b, 0x46],
        KeyCode::Delete => vec![ESC, 0x5b, 0x33, 0x7e],
        KeyCode::PageUp => vec![ESC, 0x5b, 0x35, 0x7e],
        KeyCode::PageDown => vec![ESC, 0x5b, 0x36, 0x7e],
        _ => return None,
    };
    if alt && !ctrl {
        if let KeyCode::Char(_) = key.code {
            let mut v: Vec<u8> = vec![ESC];
            v.append(&mut bytes);
            return Some(v);
        }
    }
    Some(bytes)
}

} // verus!
