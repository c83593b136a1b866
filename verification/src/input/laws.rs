//! What holds of every key.

use crate::app::acting::{acts, edits_text, KeyStep};
use crate::app::App;
use crate::dialog::{top_of, Dialog};
use crate::editline::{Edit, Field};
use crate::input::actions::{KeyAction, TermAction, BACK};
use crate::input::bytes::{key_bytes, ESC};
use crate::input::dialogs::{field_key, prompt_action};
use crate::input::terminal::{sent_bytes, terminal_action};
use crate::input::{folded, global_action, handles, key_action, KeyContext};
use crate::keyevent::{KeyCode, KeyEvent, KeyModifiers};
use crate::prompt::PromptKind;
use vstd::prelude::*;

verus! {

/// An open prompt takes every key: nothing else decides what the key does.
pub proof fn law_the_prompt_is_modal(a: KeyContext, b: KeyContext, key: KeyEvent)
    requires
        a.prompt,
        b.prompt,
        a.asks == b.asks,
    ensures
        key_action(a, key) == key_action(b, key),
        key_action(a, key) == prompt_action(
            a.asks,
            key.code,
            folded(key.modifiers).0,
            folded(key.modifiers).1,
        ),
{
}

/// F1 opens the cheat sheet from anywhere but a prompt.
pub proof fn law_help_opens_from_anywhere(ctx: KeyContext, key: KeyEvent)
    requires
        !ctx.prompt,
        key.code == KeyCode::F(1),
    ensures
        key_action(ctx, key) == KeyAction::OpenHelp,
{
}

/// A chord that works from anywhere does the same whatever is open, a prompt
/// apart.
pub proof fn law_global_chords_ignore_the_focus(a: KeyContext, b: KeyContext, key: KeyEvent)
    requires
        !a.prompt,
        !b.prompt,
        ({
            let (ctrl, alt, shift) = folded(key.modifiers);
            global_action(key.code, ctrl, alt, shift) is Some
        }),
    ensures
        key_action(a, key) == key_action(b, key),
{
}

/// Control and Alt held together, outside the terminals, add a caret in the
/// editor or do nothing: no chord with one of them fires, and nothing is typed.
pub proof fn law_control_and_alt_cancel_out(ctx: KeyContext, key: KeyEvent)
    requires
        !ctx.prompt,
        ctx.top != Some(Dialog::Terminal),
        key.modifiers.control || key.modifiers.sup,
        key.modifiers.alt,
        key.code != KeyCode::F(1),
    ensures
        ({
            let a = key_action(ctx, key);
            a == KeyAction::Nothing || a == KeyAction::AddCaretAbove || a
                == KeyAction::AddCaretBelow
        }),
        key_action(ctx, key) != KeyAction::Nothing ==> ctx.top is None && ctx.find is None && (
        key.code == KeyCode::Up || key.code == KeyCode::Down),
{
}

/// Command does what Control does, outside the terminals.
pub proof fn law_command_acts_like_control(ctx: KeyContext, code: KeyCode, m: KeyModifiers)
    requires
        ctx.top != Some(Dialog::Terminal),
        m.control,
    ensures
        key_action(ctx, KeyEvent { code, modifiers: m }) == key_action(
            ctx,
            KeyEvent { code, modifiers: KeyModifiers { control: false, sup: true, ..m } },
        ),
{
}

/// With Shift, no chord with Alt works from anywhere.
pub proof fn law_alt_with_shift_is_not_global(code: KeyCode, m: KeyModifiers)
    requires
        m.alt,
        m.shift,
    ensures
        ({
            let (ctrl, alt, shift) = folded(m);
            global_action(code, ctrl, alt, shift) is None
        }),
{
}

/// Nothing reaches the shell in copy mode.
pub proof fn law_copy_mode_sends_nothing(alternate_screen: bool, key: KeyEvent)
    ensures
        terminal_action(true, alternate_screen, key) matches KeyAction::Terminal(a) ==> sent_bytes(
            a,
            key,
        ) is None,
{
}

/// A key that goes to the shell as it is has bytes to send.
pub proof fn law_a_sent_key_has_bytes(copy_mode: bool, alternate_screen: bool, key: KeyEvent)
    requires
        terminal_action(copy_mode, alternate_screen, key) == KeyAction::Terminal(
            TermAction::SendKey,
        ),
    ensures
        sent_bytes(TermAction::SendKey, key) is Some,
{
}

/// The page keys scroll at the shell; only a full-screen program gets them.
pub proof fn law_page_keys_stay_at_the_shell(copy_mode: bool, key: KeyEvent)
    requires
        key.code == KeyCode::PageUp || key.code == KeyCode::PageDown,
    ensures
        terminal_action(copy_mode, false, key) == KeyAction::Terminal(
            TermAction::ScrollPage(
                if key.code == KeyCode::PageUp {
                    1
                } else {
                    BACK
                },
            ),
        ),
{
}

/// Alt sends what the key sends without it, behind an escape.
pub proof fn law_alt_is_an_escape_prefix(code: KeyCode, m: KeyModifiers)
    requires
        m.alt,
        !m.control,
        !m.shift,
        code is Char || code == KeyCode::Enter || code == KeyCode::Backspace,
    ensures
        key_bytes(KeyEvent { code, modifiers: m }) == Some(
            seq![ESC] + key_bytes(
                KeyEvent { code, modifiers: KeyModifiers { alt: false, ..m } },
            )->0,
        ),
{
    assert(seq![ESC] + seq![0x0du8] =~= seq![ESC, 0x0du8]);
    assert(seq![ESC] + seq![0x7fu8] =~= seq![ESC, 0x7fu8]);
}

/// Control makes a letter one of the 26 control codes, whatever its case.
pub proof fn law_control_codes(c: char, m: KeyModifiers)
    requires
        m.control,
        'a' <= c <= 'z' || 'A' <= c <= 'Z',
    ensures
        ({
            let b = key_bytes(KeyEvent { code: KeyCode::Char(c), modifiers: m });
            b is Some && b->0.len() == 1 && 1 <= b->0[0] <= 26
        }),
{
}

/// The keys that go to a one-line field are those that the field knows.
pub proof fn law_field_keys_are_known(
    f: Field,
    code: KeyCode,
    ctrl: bool,
    alt: bool,
    shift: bool,
)
    ensures
        field_key(code, ctrl, alt) == (f.after_key(code, ctrl, alt, shift).1 != Edit::Ignored),
{
    reveal(Field::after_key);
}

/// While a name is asked for, or whether to delete, no key touches an open file.
pub proof fn law_a_question_about_files_keeps_the_text(
    a: App,
    key: KeyEvent,
    todo_empty: bool,
    system: Option<String>,
    r: KeyStep,
    b: App,
)
    requires
        a.prompt.active,
        a.prompt.asks matches Some(k) && (k.takes_input() || k == PromptKind::Delete),
        handles(a, key, todo_empty, system, r, b),
    ensures
        b.tabs == a.tabs,
        b.dialogs == a.dialogs,
{
}

/// A chord with Control and Alt that adds no caret leaves the editor as it is.
pub proof fn law_a_chord_with_both_does_nothing(
    a: App,
    key: KeyEvent,
    todo_empty: bool,
    system: Option<String>,
    r: KeyStep,
    b: App,
)
    requires
        !a.prompt.active,
        top_of(a.dialogs@) != Some(Dialog::Terminal),
        key.modifiers.control || key.modifiers.sup,
        key.modifiers.alt,
        key.code != KeyCode::F(1),
        key.code != KeyCode::Up,
        key.code != KeyCode::Down,
        handles(a, key, todo_empty, system, r, b),
    ensures
        b == a,
        r is Done,
{
}

/// A character typed with no dialog, no find bar and no modifier but Shift goes
/// into the text at every caret, in place of what is selected there.
pub proof fn law_a_character_is_typed(
    a: App,
    c: char,
    shift: bool,
    todo_empty: bool,
    system: Option<String>,
    r: KeyStep,
    b: App,
)
    requires
        !a.prompt.active,
        !a.find.active,
        top_of(a.dialogs@) is None,
        a.shown() is Some,
        a.shown()->0.takes(1),
        handles(
            a,
            KeyEvent {
                code: KeyCode::Char(c),
                modifiers: KeyModifiers { control: false, alt: false, shift, sup: false },
            },
            todo_empty,
            system,
            r,
            b,
        ),
    ensures
        b.tabs@ == a.tabs@.with_current(a.shown()->0.pasted(seq![c])),
        b == (App { tabs: b.tabs, ..a }),
        r is Done,
{
    let key = KeyEvent {
        code: KeyCode::Char(c),
        modifiers: KeyModifiers { control: false, alt: false, shift, sup: false },
    };
    lemma_plain_character(a.context(todo_empty), c, shift);
    lemma_insertion(a, c, key, system, r, b);
}

/// A plain character in the editor asks to be inserted.
proof fn lemma_plain_character(ctx: KeyContext, c: char, shift: bool)
    requires
        !ctx.prompt,
        ctx.top is None,
        ctx.find is None,
        ctx.editor is Some,
    ensures
        key_action(
            ctx,
            KeyEvent {
                code: KeyCode::Char(c),
                modifiers: KeyModifiers { control: false, alt: false, shift, sup: false },
            },
        ) == KeyAction::InsertChar(c),
{
}

/// What inserting a character does.
proof fn lemma_insertion(
    a: App,
    c: char,
    key: KeyEvent,
    system: Option<String>,
    r: KeyStep,
    b: App,
)
    requires
        acts(a, KeyAction::InsertChar(c), key, system, r, b),
    ensures
        edits_text(a, KeyAction::InsertChar(c), r, b),
{
}

/// The keys that are no characters are sent as terminals send them: the arrows and
/// Home and End as an escape, a bracket and a letter; Delete and the page keys as an
/// escape, a bracket, a digit and a tilde; Enter as a carriage return, or as a line
/// feed with Shift; Backspace as the delete character.
pub proof fn law_keys_are_sent_as_terminals_send_them(m: KeyModifiers)
    ensures
        key_bytes(KeyEvent { code: KeyCode::Up, modifiers: m }) == Some(
            seq![0x1bu8, 0x5bu8, 0x41u8],
        ),
        key_bytes(KeyEvent { code: KeyCode::Down, modifiers: m }) == Some(
            seq![0x1bu8, 0x5bu8, 0x42u8],
        ),
        key_bytes(KeyEvent { code: KeyCode::Right, modifiers: m }) == Some(
            seq![0x1bu8, 0x5bu8, 0x43u8],
        ),
        key_bytes(KeyEvent { code: KeyCode::Left, modifiers: m }) == Some(
            seq![0x1bu8, 0x5bu8, 0x44u8],
        ),
        key_bytes(KeyEvent { code: KeyCode::Home, modifiers: m }) == Some(
            seq![0x1bu8, 0x5bu8, 0x48u8],
        ),
        key_bytes(KeyEvent { code: KeyCode::End, modifiers: m }) == Some(
            seq![0x1bu8, 0x5bu8, 0x46u8],
        ),
        key_bytes(KeyEvent { code: KeyCode::BackTab, modifiers: m }) == Some(
            seq![0x1bu8, 0x5bu8, 0x5au8],
        ),
        key_bytes(KeyEvent { code: KeyCode::Delete, modifiers: m }) == Some(
            seq![0x1bu8, 0x5bu8, 0x33u8, 0x7eu8],
        ),
        key_bytes(KeyEvent { code: KeyCode::PageUp, modifiers: m }) == Some(
            seq![0x1bu8, 0x5bu8, 0x35u8, 0x7eu8],
        ),
        key_bytes(KeyEvent { code: KeyCode::PageDown, modifiers: m }) == Some(
            seq![0x1bu8, 0x5bu8, 0x36u8, 0x7eu8],
        ),
        key_bytes(KeyEvent { code: KeyCode::Esc, modifiers: m }) == Some(seq![0x1bu8]),
        key_bytes(KeyEvent { code: KeyCode::Tab, modifiers: m }) == Some(seq![0x09u8]),
        !m.alt ==> key_bytes(KeyEvent { code: KeyCode::Backspace, modifiers: m }) == Some(
            seq![0x7fu8],
        ),
        !m.alt && !m.shift ==> key_bytes(KeyEvent { code: KeyCode::Enter, modifiers: m }) == Some(
            seq![0x0du8],
        ),
        !m.alt && m.shift ==> key_bytes(KeyEvent { code: KeyCode::Enter, modifiers: m }) == Some(
            seq![0x0au8],
        ),
        m.alt ==> key_bytes(KeyEvent { code: KeyCode::Backspace, modifiers: m }) == Some(
            seq![0x1bu8, 0x7fu8],
        ),
        m.alt ==> key_bytes(KeyEvent { code: KeyCode::Enter, modifiers: m }) == Some(
            seq![0x1bu8, 0x0du8],
        ),
        forall|n: u8| #[trigger]
            key_bytes(KeyEvent { code: KeyCode::F(n), modifiers: m }) is None,
        key_bytes(KeyEvent { code: KeyCode::Other, modifiers: m }) is None,
{
}

/// A typed character is sent as its UTF-8 bytes. With Control the letters become the
/// codes from 1 for A to 26 for Z, in alphabetical order; with Alt an escape comes
/// first.
pub proof fn law_characters_are_sent_as_utf8(c: char, m: KeyModifiers)
    ensures
        ({
            let b = key_bytes(KeyEvent { code: KeyCode::Char(c), modifiers: m });
            let letter = 'a' <= c <= 'z' || 'A' <= c <= 'Z';
            &&& !m.control && !m.alt ==> b == Some(vstd::utf8::encode_utf8(seq![c]))
            &&& !m.control && m.alt ==> b == Some(
                seq![0x1bu8] + vstd::utf8::encode_utf8(seq![c]),
            )
            &&& m.control && !letter ==> b == Some(vstd::utf8::encode_utf8(seq![c]))
            &&& m.control && 'a' <= c <= 'z' ==> b == Some(seq![(c as int - 96) as u8])
            &&& m.control && 'A' <= c <= 'Z' ==> b == Some(seq![(c as int - 64) as u8])
        }),
{
}

/// The chords that edit the shell's line are sent as its line editor reads them:
/// back and on by a word, to the ends of the line, and deleting to its start.
pub proof fn law_line_editing_is_sent_as_shells_read_it(key: KeyEvent)
    ensures
        sent_bytes(TermAction::WordLeft, key) == Some(seq![0x1bu8, 0x62u8]),
        sent_bytes(TermAction::WordRight, key) == Some(seq![0x1bu8, 0x66u8]),
        sent_bytes(TermAction::LineStart, key) == Some(seq![0x01u8]),
        sent_bytes(TermAction::LineEnd, key) == Some(seq![0x05u8]),
        sent_bytes(TermAction::KillLine, key) == Some(seq![0x15u8]),
        sent_bytes(TermAction::SendKey, key) == key_bytes(key),
{
}

} // verus!
