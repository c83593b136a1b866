//! From a key press to what it asks for.
//!
//! A prompt takes every key while it is open. A few chords work from anywhere.
//! The rest goes to the find bar, to the dialog that has the focus, or to the
//! editor. The same chord does the same thing in the terminal and in a window.

pub mod actions;
pub mod bytes;
pub mod dialogs;
pub mod editing;
pub mod keylaws;
pub mod laws;
pub mod terminal;

use crate::app::acting::{acts, KeyStep};
use crate::app::App;
use crate::dialog::Dialog;
use crate::input::actions::KeyAction;
use crate::input::dialogs::{
    clipboard_action, files_action, find_action, handle_clipboard_dialog, handle_file_dialog,
    handle_find, handle_help_dialog, handle_prompt, handle_recent_dialog,
    handle_search_files_dialog, handle_settings_dialog, handle_terminal_picker_dialog,
    handle_todos_dialog, help_action, picker_action, prompt_action, recent_action, search_action,
    settings_action, todos_action,
};
use crate::input::editing::{editor_action, handle_editor_context};
use crate::input::terminal::{handle_terminal_modal, terminal_action};
use crate::keyevent::{is_letter, KeyCode, KeyEvent, KeyModifiers};
use crate::prompt::PromptKind;
use vstd::prelude::*;

verus! {

/// The open file, as far as keys depend on it.
#[derive(Debug, Clone, Copy, PartialEq, Eq, Structural)]
pub struct EditorContext {
    /// Something is selected.
    pub selecting: bool,
    /// The selection reaches over more than one line.
    pub multiline: bool,
}

/// The find bar, as far as keys depend on it.
#[derive(Debug, Clone, Copy, PartialEq, Eq, Structural)]
pub struct FindContext {
    /// The replacement is showing.
    pub replacing: bool,
    /// Keys go to the replacement.
    pub replace_focus: bool,
}

/// What decides the meaning of a key.
#[derive(Debug, Clone, Copy, PartialEq, Eq, Structural)]
pub struct KeyContext {
    /// A prompt is open.
    pub prompt: bool,
    pub asks: Option<PromptKind>,
    /// The dialog that has the focus.
    pub top: Option<Dialog>,
    /// The find bar, where it is open.
    pub find: Option<FindContext>,
    /// The file that is being edited.
    pub editor: Option<EditorContext>,
    /// Nothing is typed on the line for a new task.
    pub todo_empty: bool,
    /// The focused terminal is in copy mode.
    pub copy_mode: bool,
    /// A full-screen program owns the focused terminal.
    pub alternate_screen: bool,
}

/// Whether Control, or Command in its place, is held.
pub open spec fn control_held(m: KeyModifiers) -> bool {
    m.control || m.sup
}

/// Control, Alt and Shift as the editor's own chords read them. Holding both
/// Control and Alt counts as neither.
pub open spec fn folded(m: KeyModifiers) -> (bool, bool, bool) {
    (control_held(m) && !m.alt, m.alt && !control_held(m), m.shift)
}

/// Control, Alt and Shift as the editor's own chords read them. The embedded
/// terminal reads the modifiers as they are.
pub fn shortcut_mods(key: &KeyEvent) -> (r: (bool, bool, bool))
    ensures
        r == folded(key.modifiers),
{
    let alt_held = key.modifiers.alt;
    let ctrl_held = key.modifiers.control || key.modifiers.sup;
    (ctrl_held && !alt_held, alt_held && !ctrl_held, key.modifiers.shift)
}

/// The chords that work from anywhere.
pub open spec fn global_action(code: KeyCode, ctrl: bool, alt: bool, shift: bool) -> Option<
    KeyAction,
> {
    if alt && !shift && is_letter(code, 't', 'T') {
        Some(KeyAction::ToggleTerminal)
    } else if alt && !shift && is_letter(code, 'f', 'F') {
        Some(KeyAction::OpenFiles)
    } else if alt && !shift && is_letter(code, 'o', 'O') {
        Some(KeyAction::OpenRecent)
    } else if alt && !shift && is_letter(code, 'z', 'Z') {
        Some(KeyAction::ToggleWordWrap)
    } else if alt && !shift && is_letter(code, 'd', 'D') {
        Some(KeyAction::OpenTodos)
    } else if alt && !shift && is_letter(code, 'v', 'V') {
        Some(KeyAction::OpenClipboard)
    } else if ctrl && !shift && code == KeyCode::Char(',') {
        Some(KeyAction::OpenSettings)
    } else if ctrl && !shift && is_letter(code, 'q', 'Q') {
        Some(KeyAction::RequestQuit)
    } else if ctrl && !shift && is_letter(code, 'o', 'O') {
        Some(KeyAction::RequestOpenFolder)
    } else if ctrl && shift && is_letter(code, 'f', 'F') {
        Some(KeyAction::OpenSearchFiles)
    } else {
        None
    }
}

/// The chords that work from anywhere.
fn handle_global(code: KeyCode, ctrl: bool, alt: bool, shift: bool) -> (r: Option<KeyAction>)
    ensures
        r == global_action(code, ctrl, alt, shift),
{
    if alt && !shift {
        match code {
            KeyCode::Char('t') | KeyCode::Char('T') => return Some(KeyAction::ToggleTerminal),
            KeyCode::Char('f') | KeyCode::Char('F') => return Some(KeyAction::OpenFiles),
            KeyCode::Char('o') | KeyCode::Char('O') => return Some(KeyAction::OpenRecent),
            KeyCode::Char('z') | KeyCode::Char('Z') => return Some(KeyAction::ToggleWordWrap),
            KeyCode::Char('d') | KeyCode::Char('D') => return Some(KeyAction::OpenTodos),
            KeyCode::Char('v') | KeyCode::Char('V') => return Some(KeyAction::OpenClipboard),
            _ => {},
        }
    }
    if ctrl && !shift {
        match code {
            KeyCode::Char(',') => return Some(KeyAction::OpenSettings),
            KeyCode::Char('q') | KeyCode::Char('Q') => return Some(KeyAction::RequestQuit),
            KeyCode::Char('o') | KeyCode::Char('O') => return Some(KeyAction::RequestOpenFolder),
            _ => {},
        }
    }
    if ctrl && shift {
        match code {
            KeyCode::Char('f') | KeyCode::Char('F') => return Some(KeyAction::OpenSearchFiles),
            _ => {},
        }
    }
    None
}

/// What a key asks of the dialog that has the focus, or of the editor.
pub open spec fn focused_action(ctx: KeyContext, key: KeyEvent) -> KeyAction {
    let (ctrl, alt, shift) = folded(key.modifiers);
    match ctx.top {
        Some(Dialog::Files) => files_action(key.code, ctrl, alt, shift),
        Some(Dialog::Recent) => recent_action(key.code),
        Some(Dialog::Settings) => settings_action(key.code),
        Some(Dialog::Terminal) => terminal_action(ctx.copy_mode, ctx.alternate_screen, key),
        Some(Dialog::TerminalPicker) => picker_action(key.code, control_held(key.modifiers)),
        Some(Dialog::Help) => help_action(key.code),
        Some(Dialog::SearchFiles) => search_action(key.code, ctrl, alt),
        Some(Dialog::Todos) => todos_action(ctx.todo_empty, key.code, ctrl, alt, shift),
        Some(Dialog::Clipboard) => clipboard_action(key.code, ctrl),
        None => editor_action(ctx.editor, key.code, ctrl, alt, shift),
    }
}

/// What a key asks for.
pub open spec fn key_action(ctx: KeyContext, key: KeyEvent) -> KeyAction {
    let (ctrl, alt, shift) = folded(key.modifiers);
    if ctx.prompt {
        prompt_action(ctx.asks, key.code, ctrl, alt)
    } else if key.code == KeyCode::F(1) {
        KeyAction::OpenHelp
    } else if control_held(key.modifiers) && key.modifiers.alt && ctx.top != Some(
        Dialog::Terminal,
    ) {
        if ctx.top is None && ctx.find is None && key.code == KeyCode::Up {
            KeyAction::AddCaretAbove
        } else if ctx.top is None && ctx.find is None && key.code == KeyCode::Down {
            KeyAction::AddCaretBelow
        } else {
            KeyAction::Nothing
        }
    } else if global_action(key.code, ctrl, alt, shift) is Some {
        global_action(key.code, ctrl, alt, shift)->0
    } else if ctx.find is Some && ctx.top is None {
        find_action(ctx.find->0, key.code, ctrl, alt, shift)
    } else {
        focused_action(ctx, key)
    }
}

/// What a key asks for. A prompt comes first; then the help key and the chords
/// that work from anywhere; then the find bar, the focused dialog or the
/// editor.
pub fn decide_key(ctx: &KeyContext, key: &KeyEvent) -> (r: KeyAction)
    ensures
        r == key_action(*ctx, *key),
{
    let (ctrl, alt, shift) = shortcut_mods(key);
    if ctx.prompt {
        return handle_prompt(ctx.asks, key, ctrl, alt);
    }
    if key.code == KeyCode::F(1) {
        return KeyAction::OpenHelp;
    }
    // Adding a caret is the one chord that holds both Control and Alt; every
    // other chord of that shape does nothing and types nothing.
    let raw_ctrl = key.modifiers.control || key.modifiers.sup;
    if raw_ctrl && key.modifiers.alt && ctx.top != Some(Dialog::Terminal) {
        if ctx.top.is_none() && ctx.find.is_none() {
            match key.code {
                KeyCode::Up => return KeyAction::AddCaretAbove,
                KeyCode::Down => return KeyAction::AddCaretBelow,
                _ => {},
            }
        }
        return KeyAction::Nothing;
    }
    if let Some(action) = handle_global(key.code, ctrl, alt, shift) {
        return action;
    }
    if ctx.top.is_none() {
        if let Some(find) = ctx.find {
            return handle_find(&find, key, ctrl, alt, shift);
        }
    }
    match ctx.top {
        Some(Dialog::Files) => handle_file_dialog(key, ctrl, alt, shift),
        Some(Dialog::Recent) => handle_recent_dialog(key),
        Some(Dialog::Settings) => handle_settings_dialog(key),
        Some(Dialog::Terminal) => handle_terminal_modal(
            ctx.copy_mode,
            ctx.alternate_screen,
            key,
        ),
        Some(Dialog::TerminalPicker) => handle_terminal_picker_dialog(key),
        Some(Dialog::Help) => handle_help_dialog(key),
        Some(Dialog::SearchFiles) => handle_search_files_dialog(key, ctrl, alt),
        Some(Dialog::Todos) => handle_todos_dialog(ctx.todo_empty, key, ctrl, alt, shift),
        Some(Dialog::Clipboard) => handle_clipboard_dialog(key, ctrl),
        None => handle_editor_context(ctx.editor, key, ctrl, alt, shift),
    }
}

/// Whether a key makes `b` of `a`, and what is left to do.
pub open spec fn handles(
    a: App,
    key: KeyEvent,
    todo_empty: bool,
    system: Option<String>,
    r: KeyStep,
    b: App,
) -> bool {
    acts(a, key_action(a.context(todo_empty), key), key, system, r, b)
}

/// Do what a key asks for, and tell what is left to the files, the shells and
/// the lists that the editor does not keep. `todo_empty` tells whether nothing is
/// typed on the line for a new task, and `system` is what the clipboard of the
/// system holds, where it can be read.
pub fn handle_key(app: &mut App, key: KeyEvent, todo_empty: bool, system: Option<String>) -> (r:
    KeyStep)
    requires
        old(app).wf(),
    ensures
        handles(*old(app), key, todo_empty, system, r, *final(app)),
        final(app).wf(),
{
    let ctx = app.key_context(todo_empty);
    let action = decide_key(&ctx, &key);
    app.act(action, key, system)
}

} // verus!
