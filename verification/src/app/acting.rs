//! What a key does: the part that the editor does by itself, and what is left to
//! the files, the shells and the lists that it does not keep.

use crate::app::browsing::{
    collapses, copies_pick, lists_for, opens, steps, tabs_in, tabs_out, BrowseStep,
};
use crate::app::dialogs::{
    closes_top, opens_dialog, opens_files, opens_help, opens_picker, opens_recents, opens_search,
    opens_settings, scrolls_help, toggles_terminal, Needs,
};
use crate::app::editing::{
    adds_caret_above, adds_caret_below, adds_occurrence, copies_active_path, copies_selection,
    cuts_selection, deletes_selection, drops_carets, pastes, redoes, selects_all, undoes,
};
use crate::app::files::{closes_all, closes_tab, keeps_all};
use crate::app::finding::{
    find_edited, goes_next, goes_prev, opens_find, replacement_edited, replaces_all, replaces_one,
    toggles_focus, toggles_replace,
};
use crate::app::folders::{
    adjusts, deletes_recent, moves_focus, moves_recent, opens_recent, ticks_recent, toggles_wrap,
    FolderStep,
};
use crate::app::prompting::{asks_delete, asks_rename, prompt_edited, reveals, Task};
use crate::app::querying::{erases, files_edited};
use crate::app::quitting::{asks_next_closed, asks_to_quit, called_off, quits};
use crate::app::searching::{search_edited, search_goes_down, search_goes_up};
use crate::app::showing::{moves_picker, moves_tabs};
use crate::app::terminal::{asks_picker, closes_terminal, picks_terminal, shortened};
use crate::app::App;
use crate::dialog::Dialog;
use crate::editline::char_len;
use crate::filedialog::all_searchable;
use crate::input::actions::{KeyAction, TermAction};
use crate::input::{folded, shortcut_mods};
use crate::keyevent::KeyEvent;
use crate::prompt::{PromptKind, PromptState};
use crate::requests::{flattened, one_line};
use crate::rope::{fits_rope, rope_len_chars};
use crate::search::Hit;
use crate::tabs::{copy_text, lemma_with_editor, TabsState};
use crate::terminals::{labels_of, TerminalsState};
use vstd::prelude::*;
use vstd::string::*;

verus! {

/// What is left to do after a key.
#[derive(Debug)]
pub enum KeyStep {
    /// Nothing.
    Done,
    /// Nothing was done: the text would not fit in memory, or a selection reaches
    /// past its end.
    NoRoom,
    /// Get what a dialog that opened needs.
    Needs(Needs),
    /// Go on in the file dialog.
    Browse(BrowseStep),
    /// Change a file or a folder.
    Task(Task),
    /// Open folders.
    Folders(FolderStep),
    /// Forget recent folders on disk too.
    Forget(Vec<String>),
    /// Show a path in the desktop's own file manager.
    Reveal(String),
    /// Open a file and select a place in it.
    OpenHit(String, Hit),
    /// The action is done with a file, a shell, the to-do list or the clipboard
    /// history.
    Outside(KeyAction),
}

/// Whether `n` characters more fit into a field with its cursor here.
pub open spec fn field_fits(cursor: usize, n: nat) -> bool {
    cursor < usize::MAX && cursor + n <= usize::MAX
}

/// Whether only the tabs change, to `t`.
pub open spec fn turns_tabs(a: App, t: TabsState, b: App) -> bool {
    b == (App { tabs: b.tabs, ..a }) && b.tabs@ == t
}

/// Whether only the terminals change, to `t`.
pub open spec fn turns_terminals(a: App, t: TerminalsState, b: App) -> bool {
    b == (App { terminals: b.terminals, ..a }) && b.terminals@ == t
}

/// Whether only the prompt changes, to `p`.
pub open spec fn turns_prompt(a: App, p: PromptState, b: App) -> bool {
    b == (App { prompt: b.prompt, ..a }) && b.prompt@ == p
}

/// Whether nothing happens, for want of room.
pub open spec fn lacks_room(a: App, r: KeyStep, b: App) -> bool {
    b == a && r is NoRoom
}

/// Whether a key that edits the text makes `b` of `a`, and what is left to do.
pub open spec fn edits_text(a: App, act: KeyAction, r: KeyStep, b: App) -> bool {
    match a.shown() {
        Some(s) => if s.can_edit(act) {
            turns_tabs(a, a.tabs@.with_current(s.edited_by(act)), b) && r is Done
        } else {
            turns_tabs(a, a.tabs@, b) && r is NoRoom
        },
        None => b == a && r is Done,
    }
}

/// Whether what a key asks of the terminals makes `b` of `a`, and what is left to
/// do. What goes to a shell is left.
pub open spec fn acts_on_terminals(a: App, t: TermAction, r: KeyStep, b: App) -> bool {
    let s = a.terminals@;
    match t {
        TermAction::Next => turns_terminals(a, s.turned(1), b) && r is Done,
        TermAction::Prev => turns_terminals(a, s.turned(-1), b) && r is Done,
        TermAction::MoveLeft => turns_terminals(a, s.moved_left(), b) && r is Done,
        TermAction::MoveRight => turns_terminals(a, s.moved_right(), b) && r is Done,
        TermAction::Jump(n) => turns_terminals(a, s.jumped(n as int), b) && r is Done,
        TermAction::ToggleGrid => turns_terminals(
            a,
            TerminalsState { grid: !s.grid, ..s },
            b,
        ) && r is Done,
        TermAction::Close => closes_terminal(a, b) && r is Done,
        TermAction::OpenPicker => opens_picker(a, b) && r is Done,
        TermAction::New => b == a && r == KeyStep::Needs(Needs::Terminal),
        _ => b == a && r == KeyStep::Outside(KeyAction::Terminal(t)),
    }
}

/// Whether what a key asks of the prompt, or of what is below it, makes `b` of `a`,
/// and what is left to do.
pub open spec fn acts_on_prompt(
    a: App,
    act: KeyAction,
    key: KeyEvent,
    system: Option<String>,
    r: KeyStep,
    b: App,
) -> bool {
    let (ctrl, alt, shift) = folded(key.modifiers);
    let clip = flattened(a.clip(system));
    match act {
        KeyAction::CancelCloseAll => keeps_all(a, b) && r is Done,
        KeyAction::ClosePrompt => turns_prompt(a, PromptState::closed(), b) && r is Done,
        KeyAction::QuitSkipCurrent => r is Done && if a.quit.pos < a.quit.queue@.len() {
            asks_next_closed(a, a.quit.queue@, a.quit.pos + 1, b)
        } else {
            b == a
        },
        KeyAction::QuitDiscardAll => quits(a, b) && r is Done,
        KeyAction::CancelQuit => called_off(a, a.tabs@, b) && b.tabs == a.tabs && r is Done,
        KeyAction::ConfirmPrompt => {
            &&& turns_prompt(a, PromptState::closed(), b)
            &&& match a.prompt@.task() {
                Some(t) => r matches KeyStep::Task(x) && x@ == t,
                None => r is Done,
            }
        },
        KeyAction::EditPrompt => if field_fits(a.prompt.cursor, clip.len()) {
            let (q, e) = a.prompt@.input.after_key(key.code, ctrl, alt, shift);
            prompt_edited(a, q, e, clip, b) && r is Done
        } else {
            lacks_room(a, r, b)
        },
        _ => acts_on_find(a, act, key, system, r, b),
    }
}

/// Whether what a key asks of the find bar, or of what is below it, makes `b` of
/// `a`, and what is left to do.
pub open spec fn acts_on_find(
    a: App,
    act: KeyAction,
    key: KeyEvent,
    system: Option<String>,
    r: KeyStep,
    b: App,
) -> bool {
    let (ctrl, alt, shift) = folded(key.modifiers);
    let clip = flattened(a.clip(system));
    let with = a.find@.replace.text;
    match act {
        KeyAction::ToggleReplace => toggles_replace(a, b) && r is Done,
        KeyAction::ToggleFindFocus => toggles_focus(a, b) && r is Done,
        KeyAction::CloseFind => {
            &&& b == (App { find: b.find, ..a })
            &&& b.find@ == a.find@.closed()
            &&& r is Done
        },
        KeyAction::FindNext => goes_next(a, b) && r is Done,
        KeyAction::FindPrev => goes_prev(a, b) && r is Done,
        KeyAction::ReplaceCurrent => if fits_rope(a.tabs@.text().len() + with.len()) {
            replaces_one(a, b) && r is Done
        } else {
            lacks_room(a, r, b)
        },
        KeyAction::ReplaceAll => if fits_rope(
            a.tabs@.text().len() + a.find@.matches.len() * with.len(),
        ) {
            replaces_all(a, b) && r is Done
        } else {
            lacks_room(a, r, b)
        },
        KeyAction::EditFind => if field_fits(a.find.cursor, clip.len()) {
            let (q, e) = a.find@.query.after_key(key.code, ctrl, alt, shift);
            find_edited(a, q, e, clip, b) && r is Done
        } else {
            lacks_room(a, r, b)
        },
        KeyAction::EditReplace => if field_fits(a.find.replace_cursor, clip.len()) {
            let (q, e) = a.find@.replace.after_key(key.code, ctrl, alt, shift);
            replacement_edited(a, q, e, clip, b) && r is Done
        } else {
            lacks_room(a, r, b)
        },
        _ => acts_on_files(a, act, key, system, r, b),
    }
}

/// Whether what a key asks of the file dialog, or of what is below it, makes `b` of
/// `a`, and what is left to do.
pub open spec fn acts_on_files(
    a: App,
    act: KeyAction,
    key: KeyEvent,
    system: Option<String>,
    r: KeyStep,
    b: App,
) -> bool {
    let (ctrl, alt, shift) = folded(key.modifiers);
    let clip = flattened(a.clip(system));
    match act {
        KeyAction::FilesUp => steps(a, b, true, 1) && r is Done,
        KeyAction::FilesDown => steps(a, b, false, 1) && r is Done,
        KeyAction::FilesExpand => b == a && if a.file_dialog.query@.len() == 0
            && a.tree@.can_open() {
            r matches KeyStep::Browse(BrowseStep::Expand(p)) && p@ == a.tree@.current()->0.path
        } else {
            r is Done
        },
        KeyAction::FilesCollapse => collapses(a, b) && r is Done,
        KeyAction::FilesOpen => r matches KeyStep::Browse(s) && opens(a, s, b),
        KeyAction::FilesTab => r matches KeyStep::Browse(s) && tabs_in(a, s, b),
        KeyAction::FilesBackTab => r matches KeyStep::Browse(s) && tabs_out(a, s, b),
        KeyAction::FilesCopyPath { relative } => copies_pick(a, relative, b) && r is Done,
        KeyAction::FilesNewFolder => turns_prompt(
            a,
            PromptState::asking(PromptKind::NewFolder, a.base_dir(), Seq::empty()),
            b,
        ) && r is Done,
        KeyAction::FilesNewFile => turns_prompt(
            a,
            PromptState::asking(PromptKind::NewFile, a.base_dir(), Seq::empty()),
            b,
        ) && r is Done,
        KeyAction::FilesDelete => asks_delete(a, b) && r is Done,
        KeyAction::FilesRename => asks_rename(a, b) && r is Done,
        KeyAction::FilesReveal => match r {
            KeyStep::Reveal(p) => reveals(a, Some(p), b),
            KeyStep::Done => reveals(a, None, b),
            _ => false,
        },
        KeyAction::FilesBackspace => if a.query_fits(0) {
            r matches KeyStep::Browse(s) && erases(a, s, b)
        } else {
            lacks_room(a, r, b)
        },
        KeyAction::FilesInput(c) => if a.file_dialog.cursor < usize::MAX && a.query_fits(1) {
            lists_for(a, a.file_dialog.field().typed(seq![c]).clamped(), b) && r is Done
        } else {
            lacks_room(a, r, b)
        },
        KeyAction::EditFiles => if field_fits(a.file_dialog.cursor, clip.len()) && a.query_fits(
            1 + clip.len() as int,
        ) {
            let (q, e) = a.file_dialog.field().after_key(key.code, ctrl, alt, shift);
            files_edited(a, q, e, clip, b) && r is Done
        } else {
            lacks_room(a, r, b)
        },
        _ => acts_on_lists(a, act, key, system, r, b),
    }
}

/// Whether what a key asks of the other lists, or of the open files, makes `b` of
/// `a`, and what is left to do.
pub open spec fn acts_on_lists(
    a: App,
    act: KeyAction,
    key: KeyEvent,
    system: Option<String>,
    r: KeyStep,
    b: App,
) -> bool {
    let (ctrl, alt, shift) = folded(key.modifiers);
    let clip = flattened(a.clip(system));
    let names = labels_of(a.terminals@.names());
    match act {
        KeyAction::SearchUp => search_goes_up(a, b) && r is Done,
        KeyAction::SearchDown => search_goes_down(a, b) && r is Done,
        KeyAction::SearchOpen => b == a && match a.search@.picked() {
            Some((f, k)) => r matches KeyStep::OpenHit(p, h) && p@ == a.search@.results[f].path
                && h == a.search@.results[f].hits[k],
            None => r is Done,
        },
        KeyAction::EditSearch => if field_fits(a.search.cursor, clip.len()) {
            let (q, e) = a.search@.query.after_key(key.code, ctrl, alt, shift);
            search_edited(a, q, e, clip, b) && r is Done
        } else {
            lacks_room(a, r, b)
        },
        KeyAction::PickerMove(d) => moves_picker(a, d, b) && r is Done,
        KeyAction::PickerConfirm => picks_terminal(a, b) && r is Done,
        KeyAction::PickerBackspace => if all_searchable(names, shortened(a.picker.query@)) {
            asks_picker(a, shortened(a.picker.query@), b) && r is Done
        } else {
            lacks_room(a, r, b)
        },
        KeyAction::PickerInput(c) => if all_searchable(names, a.picker.query@.push(c)) {
            asks_picker(a, a.picker.query@.push(c), b) && r is Done
        } else {
            lacks_room(a, r, b)
        },
        KeyAction::RecentMove(d) => moves_recent(a, d, b) && r is Done,
        KeyAction::RecentToggle => ticks_recent(a, b) && r is Done,
        KeyAction::RecentOpen => r matches KeyStep::Folders(s) && opens_recent(a, s, b),
        KeyAction::RecentDelete => r matches KeyStep::Forget(v) && deletes_recent(a, v, b),
        KeyAction::SettingsFocus(d) => moves_focus(a, d, b) && r is Done,
        KeyAction::SettingsAdjust(d) => adjusts(a, d, b) && r is Done,
        _ => acts_on_text(a, act, system, r, b),
    }
}

/// Whether what a key asks of the open files makes `b` of `a`, and what is left
/// to do.
pub open spec fn acts_on_text(
    a: App,
    act: KeyAction,
    system: Option<String>,
    r: KeyStep,
    b: App,
) -> bool {
    let t = a.tabs@;
    match act {
        KeyAction::ClearCarets => exists|any: bool| drops_carets(a, any, b) && r is Done,
        KeyAction::AddNextOccurrence => if t.sound() {
            adds_occurrence(a, b) && r is Done
        } else {
            lacks_room(a, r, b)
        },
        KeyAction::OpenFind => if t.sound() {
            opens_find(a, b) && r is Done
        } else {
            lacks_room(a, r, b)
        },
        KeyAction::SelectAll => selects_all(a, b) && r is Done,
        KeyAction::CopyPath { relative } => copies_active_path(a, relative, b) && r is Done,
        KeyAction::CopySelection => if t.sound() {
            copies_selection(a, b) && r is Done
        } else {
            lacks_room(a, r, b)
        },
        KeyAction::CutSelection => if t.sound() {
            cuts_selection(a, b) && r is Done
        } else {
            lacks_room(a, r, b)
        },
        KeyAction::DeleteSelection => if t.sound() {
            exists|any: bool| deletes_selection(a, any, b) && r is Done
        } else {
            lacks_room(a, r, b)
        },
        KeyAction::Paste => if t.takes(a.clip(system).len() as int) {
            pastes(a, system, b) && r is Done
        } else {
            lacks_room(a, r, b)
        },
        KeyAction::Undo => undoes(a, b) && r is Done,
        KeyAction::Redo => redoes(a, b) && r is Done,
        KeyAction::CloseTab => closes_tab(a, b) && r is Done,
        KeyAction::CloseAll => closes_all(a, t, a.prompt@, false, b) && r is Done,
        KeyAction::ToggleGrid => turns_tabs(a, TabsState { grid: !t.grid, ..t }, b) && r is Done,
        KeyAction::MoveTabLeft => moves_tabs(a, t.moved_left(), t.moved_left() != t, b) && r is Done,
        KeyAction::MoveTabRight => moves_tabs(a, t.moved_right(), t.moved_right() != t, b) && r is Done,
        KeyAction::NextTab => turns_tabs(a, t.turned(1), b) && r is Done,
        KeyAction::PrevTab => turns_tabs(a, t.turned(-1), b) && r is Done,
        KeyAction::InsertChar(_) => edits_text(a, act, r, b),
        KeyAction::Newline => edits_text(a, act, r, b),
        KeyAction::Indent => edits_text(a, act, r, b),
        KeyAction::Outdent => edits_text(a, act, r, b),
        KeyAction::InsertSoftTab => edits_text(a, act, r, b),
        KeyAction::Backspace => edits_text(a, act, r, b),
        KeyAction::Delete => edits_text(a, act, r, b),
        KeyAction::DeleteWordLeft => edits_text(a, act, r, b),
        KeyAction::DeleteToLineStart => edits_text(a, act, r, b),
        KeyAction::MoveCarets { .. } => edits_text(a, act, r, b),
        _ => b == a && r == KeyStep::Outside(act),
    }
}

/// Whether doing what a key asks for makes `b` of `a`, and what is left to do.
pub open spec fn acts(
    a: App,
    act: KeyAction,
    key: KeyEvent,
    system: Option<String>,
    r: KeyStep,
    b: App,
) -> bool {
    match act {
        KeyAction::Nothing => b == a && r is Done,
        KeyAction::OpenHelp => opens_help(a, b) && r is Done,
        KeyAction::AddCaretAbove => adds_caret_above(a, b) && r is Done,
        KeyAction::AddCaretBelow => adds_caret_below(a, b) && r is Done,
        KeyAction::ToggleTerminal => r matches KeyStep::Needs(n) && toggles_terminal(a, n, b),
        KeyAction::OpenFiles => r matches KeyStep::Needs(n) && opens_files(a, n, b),
        KeyAction::OpenRecent => r matches KeyStep::Needs(n) && opens_recents(a, n, b),
        KeyAction::ToggleWordWrap => toggles_wrap(a, b) && r is Done,
        KeyAction::OpenTodos => r matches KeyStep::Needs(n) && opens_dialog(
            a,
            Dialog::Todos,
            n,
            b,
        ),
        KeyAction::OpenClipboard => r matches KeyStep::Needs(n) && opens_dialog(
            a,
            Dialog::Clipboard,
            n,
            b,
        ),
        KeyAction::OpenSettings => opens_settings(a, b) && r is Done,
        KeyAction::RequestQuit => asks_to_quit(a, b) && r is Done,
        KeyAction::RequestOpenFolder => b == (App { open_folder_requested: true, ..a })
            && r is Done,
        KeyAction::OpenSearchFiles => opens_search(a, b) && r is Done,
        KeyAction::CloseTopDialog => closes_top(a, b) && r is Done,
        KeyAction::ScrollHelp(d) => scrolls_help(a, d, b) && r is Done,
        KeyAction::Terminal(t) => acts_on_terminals(a, t, r, b),
        _ => acts_on_prompt(a, act, key, system, r, b),
    }
}

impl App {
    /// How much would be pasted into a field.
    fn flat_clip_len(&self, system: &Option<String>) -> (r: usize)
        ensures
            r == flattened(self.clip(*system)).len(),
    {
        let text = self.get_clipboard(copy_text(system));
        let flat = one_line(text);
        char_len(flat.as_str())
    }

    /// Whether what would be pasted fits into a field with its cursor here.
    fn fits_field(&self, cursor: usize, system: &Option<String>) -> (r: bool)
        ensures
            r == field_fits(cursor, flattened(self.clip(*system)).len()),
    {
        cursor < usize::MAX && self.flat_clip_len(system) <= usize::MAX - cursor
    }

    /// Whether the text that is showing takes `times` times `n` characters more.
    fn fits_text(&self, times: usize, n: usize) -> (r: bool)
        requires
            self.wf(),
        ensures
            r == fits_rope((self.tabs@.text().len() + times * n) as nat),
    {
        let have: usize = match self.tabs.active {
            Some(i) => {
                assert(self.tabs@.editors[i as int] == self.tabs.editors@[i as int]@);
                rope_len_chars(&self.tabs.editors[i].rope)
            },
            None => 0,
        };
        proof {
            assert(times * n >= 0) by (nonlinear_arith)
                requires
                    times >= 0,
                    n >= 0,
            ;
        }
        match times.checked_mul(n) {
            Some(more) => have <= usize::MAX / 4 && more <= usize::MAX / 4 - have,
            None => false,
        }
    }

    /// Do what a key that edits the text asks for.
    fn edit_text(&mut self, act: KeyAction) -> (r: KeyStep)
        requires
            old(self).wf(),
        ensures
            edits_text(*old(self), act, r, *final(self)),
            final(self).wf(),
    {
        if let Some(i) = self.tabs.active {
            let ghost s = self.tabs@;
            assert(s.editors[i as int] == self.tabs.editors@[i as int]@);
            let b = &mut self.tabs.editors[i];
            let done = b.edit_by(act);
            let ghost after = self.tabs.editors@[i as int]@;
            assert(self.tabs@ =~= s.with_editor(i as int, after));
            proof {
                lemma_with_editor(s, i as int, after);
            }
            if done {
                KeyStep::Done
            } else {
                assert(s.with_editor(i as int, after) =~= s);
                KeyStep::NoRoom
            }
        } else {
            KeyStep::Done
        }
    }

    /// Do what a key asks of the terminals.
    fn act_on_terminals(&mut self, t: TermAction) -> (r: KeyStep)
        requires
            old(self).wf(),
        ensures
            acts_on_terminals(*old(self), t, r, *final(self)),
            final(self).wf(),
    {
        match t {
            TermAction::Next => self.next_terminal(),
            TermAction::Prev => self.prev_terminal(),
            TermAction::MoveLeft => self.move_terminal_left(),
            TermAction::MoveRight => self.move_terminal_right(),
            TermAction::Jump(n) => self.jump_to_terminal(n),
            TermAction::ToggleGrid => self.toggle_terminal_grid(),
            TermAction::Close => self.close_terminal(),
            TermAction::OpenPicker => self.open_terminal_picker(),
            TermAction::New => return KeyStep::Needs(Needs::Terminal),
            _ => return KeyStep::Outside(KeyAction::Terminal(t)),
        }
        KeyStep::Done
    }

    /// Do what a key asks of the open files.
    fn act_on_text(&mut self, act: KeyAction, system: Option<String>) -> (r: KeyStep)
        requires
            old(self).wf(),
        ensures
            acts_on_text(*old(self), act, system, r, *final(self)),
            final(self).wf(),
    {
        match act {
            KeyAction::ClearCarets => {
                let any = self.clear_editor_carets();
                assert(drops_carets(*old(self), any, *self));
            },
            KeyAction::AddNextOccurrence => {
                if !self.is_sound() {
                    return KeyStep::NoRoom;
                }
                self.add_next_occurrence();
            },
            KeyAction::OpenFind => {
                if !self.is_sound() {
                    return KeyStep::NoRoom;
                }
                self.find_open();
            },
            KeyAction::SelectAll => self.select_all(),
            KeyAction::CopyPath { relative } => self.copy_active_path(relative),
            KeyAction::CopySelection => {
                if !self.is_sound() {
                    return KeyStep::NoRoom;
                }
                self.copy_selection();
            },
            KeyAction::CutSelection => {
                if !self.is_sound() {
                    return KeyStep::NoRoom;
                }
                self.cut_selection();
            },
            KeyAction::DeleteSelection => {
                if !self.is_sound() {
                    return KeyStep::NoRoom;
                }
                let any = self.delete_selection();
                assert(deletes_selection(*old(self), any, *self));
            },
            KeyAction::Paste => {
                let text = self.get_clipboard(copy_text(&system));
                if !self.has_room(char_len(text.as_str())) {
                    return KeyStep::NoRoom;
                }
                self.paste(system);
            },
            KeyAction::Undo => self.undo(),
            KeyAction::Redo => self.redo(),
            KeyAction::CloseTab => self.close_tab(),
            KeyAction::CloseAll => self.close_all(),
            KeyAction::ToggleGrid => self.toggle_editor_grid(),
            KeyAction::MoveTabLeft => self.move_tab_left(),
            KeyAction::MoveTabRight => self.move_tab_right(),
            KeyAction::NextTab => self.next_tab(),
            KeyAction::PrevTab => self.prev_tab(),
            KeyAction::InsertChar(_)
            | KeyAction::Newline
            | KeyAction::Indent
            | KeyAction::Outdent
            | KeyAction::InsertSoftTab
            | KeyAction::Backspace
            | KeyAction::Delete
            | KeyAction::DeleteWordLeft
            | KeyAction::DeleteToLineStart
            | KeyAction::MoveCarets { .. } => return self.edit_text(act),
            _ => return KeyStep::Outside(act),
        }
        KeyStep::Done
    }

    /// Do what a key asks of the lists, or of the open files.
    fn act_on_lists(&mut self, act: KeyAction, key: KeyEvent, system: Option<String>) -> (r: KeyStep)
        requires
            old(self).wf(),
        ensures
            acts_on_lists(*old(self), act, key, system, r, *final(self)),
            final(self).wf(),
    {
        let (ctrl, alt, shift) = shortcut_mods(&key);
        match act {
            KeyAction::SearchUp => self.search_files_up(),
            KeyAction::SearchDown => self.search_files_down(),
            KeyAction::SearchOpen => {
                if let Some((path, hit)) = self.search_files_open_selected() {
                    return KeyStep::OpenHit(path, hit);
                }
            },
            KeyAction::EditSearch => {
                if !self.fits_field(self.search.cursor, &system) {
                    return KeyStep::NoRoom;
                }
                self.edit_search(key, ctrl, alt, shift, system);
            },
            KeyAction::PickerMove(d) => self.terminal_picker_move(d),
            KeyAction::PickerConfirm => self.terminal_picker_confirm(),
            KeyAction::PickerBackspace => {
                let shorter = self.shortened_query();
                if !self.picker_takes(shorter.as_str()) {
                    return KeyStep::NoRoom;
                }
                self.terminal_picker_backspace();
            },
            KeyAction::PickerInput(c) => {
                let mut longer = self.picker.query.clone();
                longer.push(c);
                if !self.picker_takes(longer.as_str()) {
                    return KeyStep::NoRoom;
                }
                self.terminal_picker_input(c);
            },
            KeyAction::RecentMove(d) => self.recent_move(d),
            KeyAction::RecentToggle => self.recent_toggle(),
            KeyAction::RecentOpen => return KeyStep::Folders(self.recent_open_selected()),
            KeyAction::RecentDelete => return KeyStep::Forget(self.recent_delete_selected()),
            KeyAction::SettingsFocus(d) => self.settings_move_focus(d),
            KeyAction::SettingsAdjust(d) => self.settings_adjust(d),
            _ => return self.act_on_text(act, system),
        }
        KeyStep::Done
    }

    /// Do what a key asks of the file dialog, or of what is below it.
    fn act_on_files(&mut self, act: KeyAction, key: KeyEvent, system: Option<String>) -> (r: KeyStep)
        requires
            old(self).wf(),
        ensures
            acts_on_files(*old(self), act, key, system, r, *final(self)),
            final(self).wf(),
    {
        let (ctrl, alt, shift) = shortcut_mods(&key);
        match act {
            KeyAction::FilesUp => self.dialog_up(),
            KeyAction::FilesDown => self.dialog_down(),
            KeyAction::FilesExpand => {
                if self.dialog_tree_mode() {
                    if let Some(dir) = self.tree.folder_to_open() {
                        return KeyStep::Browse(BrowseStep::Expand(dir));
                    }
                }
            },
            KeyAction::FilesCollapse => self.dialog_tree_collapse(),
            KeyAction::FilesOpen => return KeyStep::Browse(self.dialog_open_selected()),
            KeyAction::FilesTab => return KeyStep::Browse(self.dialog_tab()),
            KeyAction::FilesBackTab => return KeyStep::Browse(self.dialog_backtab()),
            KeyAction::FilesCopyPath { relative } => self.copy_dialog_path(relative),
            KeyAction::FilesNewFolder => self.dialog_new_folder(),
            KeyAction::FilesNewFile => self.dialog_new_file(),
            KeyAction::FilesDelete => self.dialog_delete(),
            KeyAction::FilesRename => self.dialog_rename(),
            KeyAction::FilesReveal => {
                if let Some(path) = self.dialog_reveal_in_finder() {
                    return KeyStep::Reveal(path);
                }
            },
            KeyAction::FilesBackspace => {
                if !self.has_query_room(0) {
                    return KeyStep::NoRoom;
                }
                return KeyStep::Browse(self.dialog_backspace());
            },
            KeyAction::FilesInput(c) => {
                if self.file_dialog.cursor == usize::MAX || !self.has_query_room(1) {
                    return KeyStep::NoRoom;
                }
                self.dialog_input(c);
            },
            KeyAction::EditFiles => {
                if !self.fits_field(self.file_dialog.cursor, &system) {
                    return KeyStep::NoRoom;
                }
                let n: usize = self.flat_clip_len(&system);
                if n == usize::MAX || !self.has_query_room(n + 1) {
                    return KeyStep::NoRoom;
                }
                self.edit_files(key, ctrl, alt, shift, system);
            },
            _ => return self.act_on_lists(act, key, system),
        }
        KeyStep::Done
    }

    /// Do what a key asks of the find bar, or of what is below it.
    fn act_on_find(&mut self, act: KeyAction, key: KeyEvent, system: Option<String>) -> (r: KeyStep)
        requires
            old(self).wf(),
        ensures
            acts_on_find(*old(self), act, key, system, r, *final(self)),
            final(self).wf(),
    {
        let (ctrl, alt, shift) = shortcut_mods(&key);
        match act {
            KeyAction::ToggleReplace => self.find_toggle_replace(),
            KeyAction::ToggleFindFocus => self.find_toggle_focus(),
            KeyAction::CloseFind => self.find_close(),
            KeyAction::FindNext => self.find_next(),
            KeyAction::FindPrev => self.find_prev(),
            KeyAction::ReplaceCurrent => {
                if !self.fits_text(1, char_len(self.find.replace.as_str())) {
                    return KeyStep::NoRoom;
                }
                self.replace_current();
            },
            KeyAction::ReplaceAll => {
                let n: usize = char_len(self.find.replace.as_str());
                if !self.fits_text(self.find.matches.len(), n) {
                    return KeyStep::NoRoom;
                }
                self.replace_all();
            },
            KeyAction::EditFind => {
                if !self.fits_field(self.find.cursor, &system) {
                    return KeyStep::NoRoom;
                }
                self.edit_find(key, ctrl, alt, shift, system);
            },
            KeyAction::EditReplace => {
                if !self.fits_field(self.find.replace_cursor, &system) {
                    return KeyStep::NoRoom;
                }
                self.edit_replace(key, ctrl, alt, shift, system);
            },
            _ => return self.act_on_files(act, key, system),
        }
        KeyStep::Done
    }

    /// Do what a key asks of the prompt, or of what is below it.
    fn act_on_prompt(&mut self, act: KeyAction, key: KeyEvent, system: Option<String>) -> (r: KeyStep)
        requires
            old(self).wf(),
        ensures
            acts_on_prompt(*old(self), act, key, system, r, *final(self)),
            final(self).wf(),
    {
        let (ctrl, alt, shift) = shortcut_mods(&key);
        match act {
            KeyAction::CancelCloseAll => self.cancel_close_all(),
            KeyAction::ClosePrompt => self.prompt.close(),
            KeyAction::QuitSkipCurrent => {
                if self.quit.pos < self.quit.queue.len() {
                    self.quit_skip_current();
                }
            },
            KeyAction::QuitDiscardAll => self.quit_discard_all(),
            KeyAction::CancelQuit => self.cancel_quit(),
            KeyAction::ConfirmPrompt => {
                if let Some(task) = self.confirm_prompt() {
                    return KeyStep::Task(task);
                }
            },
            KeyAction::EditPrompt => {
                if !self.fits_field(self.prompt.cursor, &system) {
                    return KeyStep::NoRoom;
                }
                self.edit_prompt(key, ctrl, alt, shift, system);
            },
            _ => return self.act_on_find(act, key, system),
        }
        KeyStep::Done
    }

    /// Do what a key asks for. `system` is what the clipboard of the system holds,
    /// where it can be read.
    pub fn act(&mut self, act: KeyAction, key: KeyEvent, system: Option<String>) -> (r: KeyStep)
        requires
            old(self).wf(),
        ensures
            acts(*old(self), act, key, system, r, *final(self)),
            final(self).wf(),
    {
        match act {
            KeyAction::Nothing => {},
            KeyAction::OpenHelp => self.open_help(),
            KeyAction::AddCaretAbove => self.add_caret_above(),
            KeyAction::AddCaretBelow => self.add_caret_below(),
            KeyAction::ToggleTerminal => return KeyStep::Needs(self.toggle_terminal_modal()),
            KeyAction::OpenFiles => return KeyStep::Needs(self.open_file_dialog()),
            KeyAction::OpenRecent => return KeyStep::Needs(self.open_recent_dialog()),
            KeyAction::ToggleWordWrap => self.toggle_word_wrap(),
            KeyAction::OpenTodos => return KeyStep::Needs(self.open_dialog(Dialog::Todos)),
            KeyAction::OpenClipboard => return KeyStep::Needs(self.open_dialog(Dialog::Clipboard)),
            KeyAction::OpenSettings => self.open_settings(),
            KeyAction::RequestQuit => self.request_quit(),
            KeyAction::RequestOpenFolder => self.request_open_folder(),
            KeyAction::OpenSearchFiles => self.open_search_files(),
            KeyAction::CloseTopDialog => self.close_top_dialog(),
            KeyAction::ScrollHelp(d) => self.help_scroll(d),
            KeyAction::Terminal(t) => return self.act_on_terminals(t),
            _ => return self.act_on_prompt(act, key, system),
        }
        KeyStep::Done
    }
}

} // verus!
