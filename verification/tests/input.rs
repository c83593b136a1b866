use oxru::app::acting::KeyStep;
use oxru::app::dialogs::Needs;
use oxru::app::files::{OpenStep, ReadOutcome};
use oxru::app::prompting::Task;
use oxru::app::terminal::Spawn;
use oxru::app::{App, FolderFiles};
use oxru::buffer::state::Move;
use oxru::color::Rgb;
use oxru::config::{Config, Theme};
use oxru::dialog::Dialog;
use oxru::fstree::Filter;
use oxru::input::actions::{KeyAction, TermAction};
use oxru::input::bytes::key_to_bytes;
use oxru::input::dialogs::handle_file_dialog;
use oxru::input::{decide_key, handle_key};
use oxru::input::terminal::bytes_for;
use oxru::keyevent::{KeyCode, KeyEvent, KeyModifiers};
use oxru::prompt::PromptKind;
use oxru::terminals::Terminal;

const NONE: KeyModifiers = KeyModifiers { control: false, alt: false, shift: false, sup: false };
const CONTROL: KeyModifiers = KeyModifiers { control: true, ..NONE };
const ALT: KeyModifiers = KeyModifiers { alt: true, ..NONE };
const SHIFT: KeyModifiers = KeyModifiers { shift: true, ..NONE };
const SUPER: KeyModifiers = KeyModifiers { sup: true, ..NONE };
const CONTROL_SHIFT: KeyModifiers = KeyModifiers { shift: true, ..CONTROL };
const ALT_SHIFT: KeyModifiers = KeyModifiers { shift: true, ..ALT };
const CONTROL_ALT: KeyModifiers = KeyModifiers { alt: true, ..CONTROL };

fn new_app() -> App {
    let files = FolderFiles {
        listing: vec![("a.txt".to_string(), false)],
        filter: Filter { rules: None },
        walk: vec![("/ws/a.txt".to_string(), true)],
        heeding_walk: vec![("/ws/a.txt".to_string(), true)],
    };
    App::new(
        Some("/ws".to_string()),
        files,
        &Config::default(),
        Theme { accent: Rgb(1, 2, 3) },
        vec![Rgb(1, 2, 3)],
        1_000_000,
    )
}

fn with_file(text: &str) -> App {
    let mut app = new_app();
    assert_eq!(app.open_path("/ws/a.txt"), OpenStep::Read);
    app.file_read(
        "/ws/a.txt".to_string(),
        ReadOutcome::Text { text: text.to_string(), disk: None },
    );
    app
}

fn spawn(app: &mut App) {
    let terminal = Terminal {
        id: 1,
        name: "ws".to_string(),
        running: false,
        copy_mode: false,
        alternate_screen: false,
        wants_mouse: false,
        wants_motion: false,
    };
    app.new_terminal(Spawn::Started { terminal, cwd: "/ws".to_string() });
}

fn terminal_app() -> App {
    let mut app = new_app();
    press(&mut app, KeyCode::Char('t'), ALT);
    app
}

fn decide(app: &App, code: KeyCode, mods: KeyModifiers) -> KeyAction {
    decide_key(&app.key_context(true), &KeyEvent::new(code, mods))
}

/// Press a key; gives what is sent to the shell.
fn press(app: &mut App, code: KeyCode, mods: KeyModifiers) -> Vec<u8> {
    let key = KeyEvent::new(code, mods);
    match handle_key(app, key, true, None) {
        KeyStep::Needs(Needs::Terminal) => spawn(app),
        KeyStep::Outside(KeyAction::Terminal(t)) => {
            match t {
                TermAction::EnterCopyMode { .. } => app.terminal_enter_copy_mode(),
                TermAction::ExitCopyMode => app.terminal_exit_copy_mode(),
                _ => {}
            }
            return bytes_for(t, &key).unwrap_or_default();
        }
        _ => {}
    }
    Vec::new()
}

#[test]
fn ctrl_letter_is_control_code() {
    let ev = KeyEvent::new(KeyCode::Char('c'), CONTROL);
    assert_eq!(key_to_bytes(&ev), Some(vec![3]));
}

#[test]
fn enter_newline_variants() {
    // Plain Enter submits (CR).
    let plain = KeyEvent::new(KeyCode::Enter, NONE);
    assert_eq!(key_to_bytes(&plain), Some(vec![b'\r']));
    // Option/Alt+Enter: ESC + CR (soft newline).
    let alt = KeyEvent::new(KeyCode::Enter, ALT);
    assert_eq!(key_to_bytes(&alt), Some(vec![0x1b, b'\r']));
    // Shift+Enter: LF.
    let shift = KeyEvent::new(KeyCode::Enter, SHIFT);
    assert_eq!(key_to_bytes(&shift), Some(vec![b'\n']));
}

#[test]
fn arrows_are_escape_sequences() {
    let ev = KeyEvent::new(KeyCode::Up, NONE);
    assert_eq!(key_to_bytes(&ev), Some(vec![0x1b, b'[', b'A']));
}

#[test]
fn option_backspace_deletes_word() {
    // Option+Backspace: ESC + DEL (readline backward-kill-word).
    let ev = KeyEvent::new(KeyCode::Backspace, ALT);
    assert_eq!(key_to_bytes(&ev), Some(vec![0x1b, 0x7f]));
    // Plain Backspace is still a single DEL.
    let plain = KeyEvent::new(KeyCode::Backspace, NONE);
    assert_eq!(key_to_bytes(&plain), Some(vec![0x7f]));
}

#[test]
fn terminal_word_move_chords() {
    let mut app = terminal_app();
    // Option+Left/Right and Ctrl+Left/Right all jump by word: ESC b / ESC f.
    assert_eq!(press(&mut app, KeyCode::Left, ALT), vec![0x1b, b'b']);
    assert_eq!(press(&mut app, KeyCode::Right, ALT), vec![0x1b, b'f']);
    assert_eq!(press(&mut app, KeyCode::Left, CONTROL), vec![0x1b, b'b']);
    assert_eq!(press(&mut app, KeyCode::Right, CONTROL), vec![0x1b, b'f']);
}

#[test]
fn terminal_line_edit_chords() {
    let mut app = terminal_app();
    // Cmd+Left / Cmd+Right: line start / end (Ctrl+A / Ctrl+E).
    assert_eq!(press(&mut app, KeyCode::Left, SUPER), vec![0x01]);
    assert_eq!(press(&mut app, KeyCode::Right, SUPER), vec![0x05]);
    // Cmd+Backspace: delete to line start (Ctrl+U).
    assert_eq!(press(&mut app, KeyCode::Backspace, SUPER), vec![0x15]);
    // Option+Backspace: delete word (ESC DEL).
    assert_eq!(press(&mut app, KeyCode::Backspace, ALT), vec![0x1b, 0x7f]);
}

#[test]
fn terminal_plain_pageup_scrolls_not_sent() {
    let mut app = terminal_app();
    assert!(
        press(&mut app, KeyCode::PageUp, NONE).is_empty(),
        "plain PageUp must not be forwarded to the shell"
    );
    // A full-screen program gets it.
    app.terminals.list[0].alternate_screen = true;
    assert_eq!(press(&mut app, KeyCode::PageUp, NONE), vec![0x1b, b'[', b'5', b'~']);
}

#[test]
fn alt_char_is_esc_prefixed() {
    let ev = KeyEvent::new(KeyCode::Char('x'), ALT);
    assert_eq!(key_to_bytes(&ev), Some(vec![0x1b, b'x']));
}

#[test]
fn f1_opens_shortcuts_help() {
    let mut app = new_app();
    press(&mut app, KeyCode::F(1), NONE);
    assert_eq!(app.top_dialog(), Some(Dialog::Help));
    press(&mut app, KeyCode::Esc, NONE);
    assert_eq!(app.top_dialog(), None);
}

#[test]
fn ctrl_shortcuts_fire_on_the_same_combo_in_both_modes() {
    let mut app = with_file("hello world");
    press(&mut app, KeyCode::Char('a'), CONTROL);
    assert!(app.active_buffer().unwrap().selection().is_some(), "plain Ctrl+A must select all");
}

#[test]
fn alt_shortcuts_fire_on_the_same_combo_in_both_modes() {
    let mut app = new_app();
    press(&mut app, KeyCode::Char('t'), ALT);
    assert!(app.terminals.modal, "plain Alt+T must open the terminal");
}

#[test]
fn the_old_three_key_aliases_no_longer_fire() {
    let mut app = new_app();
    press(&mut app, KeyCode::Char('t'), ALT_SHIFT);
    assert!(!app.terminals.modal, "Alt+Shift+T must no longer open the terminal");

    let mut app = with_file("hello world");
    assert_eq!(decide(&app, KeyCode::Char('a'), CONTROL_ALT), KeyAction::Nothing);
    press(&mut app, KeyCode::Char('a'), CONTROL_ALT);
    assert!(
        app.active_buffer().unwrap().selection().is_none(),
        "Ctrl+Alt+A must no longer select all"
    );
    assert_eq!(app.active_buffer().unwrap().rope.to_string(), "hello world");
}

#[test]
fn alt_d_opens_the_todo_list_and_alt_v_the_clipboard() {
    let mut app = new_app();
    press(&mut app, KeyCode::Char('d'), ALT);
    assert_eq!(app.top_dialog(), Some(Dialog::Todos), "Alt+D opens the to-do list");
    press(&mut app, KeyCode::Esc, NONE);
    press(&mut app, KeyCode::Char('v'), ALT);
    assert_eq!(app.top_dialog(), Some(Dialog::Clipboard), "Alt+V opens the history");
}

#[test]
fn alt_shift_n_still_starts_a_new_folder() {
    let mut app = new_app();
    app.open_file_dialog();
    press(&mut app, KeyCode::Char('n'), ALT_SHIFT);
    assert!(app.prompt.active, "Shift+Alt+N opens the new-folder prompt");
    assert_eq!(app.prompt.kind(), Some(PromptKind::NewFolder));
    assert!(!app.terminals.modal, "and must not have hit the global Alt block");
}

#[test]
fn ctrl_alt_arrows_still_add_a_caret() {
    let mut app = with_file("one\ntwo\nthree\n");
    assert_eq!(app.active_buffer().unwrap().caret_count(), 1);
    press(&mut app, KeyCode::Down, CONTROL_ALT);
    assert_eq!(app.active_buffer().unwrap().caret_count(), 2, "Ctrl+Alt+Down adds a caret");
}

#[test]
fn shift_alt_arrows_still_extend_the_selection_by_word() {
    let mut app = with_file("hello world");
    press(&mut app, KeyCode::Right, ALT_SHIFT);
    assert!(
        app.active_buffer().unwrap().selection().is_some(),
        "Shift+Alt+Right still selects a word"
    );
}

#[test]
fn terminal_pane_alt_chords_stay_two_key_even_in_tui_mode() {
    let mut app = terminal_app();
    assert!(!app.terminal_copy_mode());
    press(&mut app, KeyCode::Up, ALT);
    assert!(app.terminal_copy_mode(), "Option+Up alone still enters copy mode");
}

#[test]
fn cmd_super_acts_like_ctrl() {
    let mut app = with_file("hello world");
    press(&mut app, KeyCode::Char('a'), SUPER);
    assert!(
        app.active_buffer().unwrap().selection().is_some(),
        "Cmd+A selects all via the Cmd to Ctrl fold"
    );
}

#[test]
fn alt_arrow_moves_by_word() {
    let mut app = with_file("foo bar");
    press(&mut app, KeyCode::Right, ALT);
    assert_eq!(app.active_buffer().unwrap().cursor, 3, "Alt+Right jumps to end of 'foo'");
}

#[test]
fn terminal_copy_mode_enter_and_exit() {
    let mut app = terminal_app();
    assert!(!app.terminal_copy_mode());
    press(&mut app, KeyCode::Up, ALT);
    assert!(app.terminal_copy_mode(), "Alt+Up enters copy mode");
    // Arrows move the cursor; Shift+arrow marks: both stay in copy mode and
    // never reach the shell.
    assert!(press(&mut app, KeyCode::Down, NONE).is_empty());
    assert!(press(&mut app, KeyCode::Right, SHIFT).is_empty());
    assert!(app.terminal_copy_mode(), "still in copy mode while navigating");
    press(&mut app, KeyCode::Esc, NONE);
    assert!(!app.terminal_copy_mode(), "Esc exits copy mode");
}

#[test]
fn ctrl_shift_arrow_moves_terminal() {
    let mut app = terminal_app(); // term 0
    spawn(&mut app); // term 1, now active
    assert_eq!(app.terminals.active, 1);
    press(&mut app, KeyCode::Left, CONTROL_SHIFT);
    assert_eq!(app.terminals.active, 0, "moved the terminal left");
}

#[test]
fn ctrl_shift_f_opens_search_files_from_anywhere_in_gui_mode() {
    let mut app = new_app();
    press(&mut app, KeyCode::Char('f'), CONTROL_SHIFT);
    assert_eq!(app.top_dialog(), Some(Dialog::SearchFiles));
}

#[test]
fn alt_z_toggles_word_wrap_in_gui_mode() {
    let mut app = new_app();
    assert!(!app.settings.word_wrap, "off by default");
    press(&mut app, KeyCode::Char('z'), ALT);
    assert!(app.settings.word_wrap);
    assert_eq!(app.settings_to_write().map(|p| p.word_wrap), Some(true));
    press(&mut app, KeyCode::Char('z'), ALT);
    assert!(!app.settings.word_wrap);
}

#[test]
fn alt_z_toggles_word_wrap_in_terminal_mode_too() {
    let mut app = new_app();
    press(&mut app, KeyCode::Char('z'), ALT);
    assert!(app.settings.word_wrap, "the same Alt+Z fires in the terminal build");
}

#[test]
fn ctrl_shift_f_opens_search_files_in_terminal_mode_too() {
    let mut app = new_app();
    press(&mut app, KeyCode::Char('f'), CONTROL_SHIFT);
    assert_eq!(app.top_dialog(), Some(Dialog::SearchFiles), "same combo, both modes");
}

#[test]
fn ctrl_tab_switches_terminals() {
    let mut app = terminal_app(); // opens modal + spawns term 1
    spawn(&mut app); // term 2, now active
    assert_eq!(app.terminals.list.len(), 2);
    assert_eq!(app.terminals.active, 1);
    // Ctrl+Tab cycles to the next terminal (wraps 1 -> 0).
    press(&mut app, KeyCode::Tab, CONTROL);
    assert_eq!(app.terminals.active, 0);
    // Ctrl+Shift+Tab cycles to the previous (wraps 0 -> 1).
    press(&mut app, KeyCode::Tab, CONTROL_SHIFT);
    assert_eq!(app.terminals.active, 1);
}

#[test]
fn alt_k_opens_the_terminal_picker_and_typing_filters_it() {
    let mut app = terminal_app(); // term 0
    spawn(&mut app); // term 1, "<folder> 2"
    assert_eq!(app.top_dialog(), Some(Dialog::Terminal));
    press(&mut app, KeyCode::Char('k'), ALT);
    assert_eq!(app.top_dialog(), Some(Dialog::TerminalPicker));
    // Typing routes to the picker's query, not the shell underneath.
    assert!(press(&mut app, KeyCode::Char('2'), NONE).is_empty());
    assert_eq!(app.picker.matches, vec![1]);
    press(&mut app, KeyCode::Enter, NONE);
    assert_eq!(app.terminals.active, 1);
    assert_eq!(app.top_dialog(), Some(Dialog::Terminal), "back to the terminal dialog");
}

#[test]
fn cmd_digit_jumps_straight_to_that_terminal_tab() {
    let mut app = terminal_app(); // term 0
    spawn(&mut app); // term 1
    spawn(&mut app); // term 2, now active
    assert_eq!(app.terminals.active, 2);
    press(&mut app, KeyCode::Char('1'), ALT);
    assert_eq!(app.terminals.active, 0, "jumps to the first terminal");
    press(&mut app, KeyCode::Char('3'), ALT);
    assert_eq!(app.terminals.active, 2, "jumps to the third terminal");
    // Past the last tab: no-op, doesn't panic or wrap.
    press(&mut app, KeyCode::Char('9'), ALT);
    assert_eq!(app.terminals.active, 2, "with only 3 terminals the ninth does nothing");
}

#[test]
fn up_and_down_move_the_focus_of_the_settings() {
    let mut app = new_app();
    app.open_settings();
    assert_eq!(decide(&app, KeyCode::Down, NONE), KeyAction::SettingsFocus(1));
    assert_eq!(decide(&app, KeyCode::Up, NONE), KeyAction::SettingsFocus(-1));
    assert_eq!(decide(&app, KeyCode::Right, NONE), KeyAction::SettingsAdjust(1));
    assert_eq!(decide(&app, KeyCode::Left, NONE), KeyAction::SettingsAdjust(-1));
}

#[test]
fn a_prompt_takes_every_key() {
    let mut app = with_file("abc");
    app.open_file_dialog();
    app.dialog_new_file();
    assert_eq!(decide(&app, KeyCode::F(1), NONE), KeyAction::Nothing);
    assert_eq!(decide(&app, KeyCode::Char('q'), CONTROL), KeyAction::Nothing);
    assert_eq!(decide(&app, KeyCode::Char('q'), NONE), KeyAction::EditPrompt);
    assert_eq!(decide(&app, KeyCode::Enter, NONE), KeyAction::ConfirmPrompt);
    assert_eq!(decide(&app, KeyCode::Esc, NONE), KeyAction::ClosePrompt);
}

#[test]
fn tab_indents_lines_and_types_spaces_otherwise() {
    let mut app = with_file("a\nb\n");
    assert_eq!(decide(&app, KeyCode::Tab, NONE), KeyAction::InsertSoftTab);
    app.tabs.editors[0].select_range(0, 3);
    assert_eq!(decide(&app, KeyCode::Tab, NONE), KeyAction::Indent);
    assert_eq!(decide(&app, KeyCode::Tab, SHIFT), KeyAction::Outdent);
    assert_eq!(decide(&app, KeyCode::Backspace, NONE), KeyAction::DeleteSelection);
    assert_eq!(
        decide(&app, KeyCode::Down, SHIFT),
        KeyAction::MoveCarets { to: Move::Down, select: true }
    );
}

#[test]
fn a_key_without_a_meaning_sends_nothing() {
    assert_eq!(key_to_bytes(&KeyEvent::new(KeyCode::Other, NONE)), None);
    let e = KeyEvent::new(KeyCode::Char('\u{e9}'), NONE);
    assert_eq!(key_to_bytes(&e), Some(vec![0xc3, 0xa9]));
}

#[test]
fn keys_edit_the_open_file() {
    let mut app = with_file("ab\ncd");
    press(&mut app, KeyCode::Char('x'), NONE);
    assert_eq!(app.tabs.editors[0].rope.to_string(), "xab\ncd");
    press(&mut app, KeyCode::Tab, NONE);
    assert_eq!(app.tabs.editors[0].rope.to_string(), "x    ab\ncd");
    press(&mut app, KeyCode::Backspace, CONTROL);
    assert_eq!(app.tabs.editors[0].rope.to_string(), "ab\ncd");
    press(&mut app, KeyCode::Enter, NONE);
    assert_eq!(app.tabs.editors[0].rope.to_string(), "\nab\ncd");
    press(&mut app, KeyCode::Char('z'), CONTROL);
    assert_eq!(app.tabs.editors[0].rope.to_string(), "ab\ncd");
}

#[test]
fn a_pasted_text_comes_from_the_system() {
    let mut app = with_file("ab");
    let key = KeyEvent::new(KeyCode::Char('v'), CONTROL);
    let step = handle_key(&mut app, key, true, Some("xyz".to_string()));
    assert!(matches!(step, KeyStep::Done));
    assert_eq!(app.tabs.editors[0].rope.to_string(), "xyzab");
}

#[test]
fn saving_is_left_to_the_disk() {
    let mut app = with_file("ab");
    let key = KeyEvent::new(KeyCode::Char('s'), CONTROL);
    let step = handle_key(&mut app, key, true, None);
    assert!(matches!(step, KeyStep::Outside(KeyAction::SaveActive)));
}

#[test]
fn a_named_file_is_left_to_the_disk() {
    let mut app = with_file("ab");
    app.prompt.open(PromptKind::NewFile, "/p".to_string(), String::new());
    press(&mut app, KeyCode::Char('n'), NONE);
    let step = handle_key(&mut app, KeyEvent::new(KeyCode::Enter, NONE), true, None);
    match step {
        KeyStep::Task(Task::CreateFile { path, name }) => {
            assert_eq!(path, "/p/n");
            assert_eq!(name, "n");
        }
        _ => panic!("no file is made"),
    }
    assert_eq!(app.tabs.editors[0].rope.to_string(), "ab");
    assert!(!app.prompt.active);
}

#[test]
fn copying_in_copy_mode_leaves_it() {
    let mut app = terminal_app();
    app.terminal_enter_copy_mode();
    assert!(app.terminal_copy_mode());
    app.terminal_copy_and_exit(Some("out".to_string()));
    assert!(!app.terminal_copy_mode());
    assert_eq!(app.clipboard_text, "out");
    app.terminal_enter_copy_mode();
    app.terminal_copy_and_exit(Some("  ".to_string()));
    assert!(!app.terminal_copy_mode());
    assert_eq!(app.clipboard_text, "out");
}

#[test]
fn both_modifiers_together_in_the_file_dialog() {
    let press = |c: char, shift: bool| {
        handle_file_dialog(&KeyEvent::new(KeyCode::Char(c), NONE), true, true, shift)
    };
    assert_eq!(press('c', true), KeyAction::FilesCopyPath { relative: false });
    assert_eq!(press('h', false), KeyAction::FilesToggleJunk);
    assert_eq!(press('N', true), KeyAction::FilesNewFolder);
    assert_eq!(press('r', false), KeyAction::FilesRename);
    assert_eq!(press('R', false), KeyAction::FilesReveal);
    assert_eq!(press('v', false), KeyAction::EditFiles);
    assert_eq!(press('z', false), KeyAction::Nothing);
}
