//! What the actions of the keys do to the open files and the terminals.

use crate::app::acting::{acts, edits_text, KeyStep};
use crate::app::App;
use crate::buffer::changes::{high, low};
use crate::buffer::selectlaws::{law_the_selected_text_is_copied, on_lines, selecting_in_order};
use crate::buffer::state::{BufferState, CaretAt, Move};
use crate::dialog::Dialog;
use crate::input::actions::{KeyAction, TermAction};
use crate::keyevent::KeyEvent;
use crate::prompt::{PromptKind, PromptState};
use crate::tabs::TabsState;
use vstd::prelude::*;

verus! {

/// Whether nothing changed but the text that is showing, which became `s`, and
/// what is said about it.
pub open spec fn shows_instead(a: App, s: BufferState, b: App) -> bool {
    &&& b.tabs@ == (TabsState {
        editors: a.tabs@.editors.update(a.tabs@.active->0, s),
        ..a.tabs@
    })
    &&& b.dialogs == a.dialogs
    &&& b.terminals == a.terminals
    &&& b.root == a.root
    &&& b.settings == a.settings
    &&& b.prompt == a.prompt
}

/// Undo and redo go back and on by one step in the text that is showing, and leave
/// all else.
pub proof fn law_undo_and_redo_act_on_the_text_shown(
    a: App,
    key: KeyEvent,
    system: Option<String>,
    r: KeyStep,
    b: App,
)
    requires
        a.shown() is Some,
    ensures
        acts(a, KeyAction::Undo, key, system, r, b) ==> shows_instead(a, a.shown()->0.undone(), b)
            && b.clipboard_text == a.clipboard_text,
        acts(a, KeyAction::Redo, key, system, r, b) ==> shows_instead(a, a.shown()->0.redone(), b)
            && b.clipboard_text == a.clipboard_text,
{
}

/// Copying puts the selected texts, from top to bottom, on the clipboard and leaves
/// the text; with nothing selected it leaves the clipboard too.
pub proof fn law_copying_leaves_the_text(
    a: App,
    key: KeyEvent,
    system: Option<String>,
    r: KeyStep,
    b: App,
)
    requires
        a.wf(),
        a.shown() is Some,
        a.shown()->0.selections_ok(),
        acts(a, KeyAction::CopySelection, key, system, r, b),
    ensures
        b.tabs == a.tabs,
        (forall|c: CaretAt| #[trigger] a.shown()->0.has_caret(c) ==> low(c) == high(c)) ==> b == a,
        (exists|c: CaretAt| #[trigger] a.shown()->0.has_caret(c) && low(c) < high(c))
            ==> b.clipboard_dirty && exists|cs: Seq<CaretAt>| #[trigger]
            selecting_in_order(a.shown()->0, cs) && b.clipboard_text@ == on_lines(
                a.shown()->0.text,
                cs,
            ),
{
    law_the_selected_text_is_copied(a.shown()->0);
    if exists|c: CaretAt| #[trigger] a.shown()->0.has_caret(c) && low(c) < high(c) {
        assert(a.selection() is Some);
    }
    if forall|c: CaretAt| #[trigger] a.shown()->0.has_caret(c) ==> low(c) == high(c) {
        assert(a.selection() is None);
    }
}

/// Cutting puts the same on the clipboard as copying and takes it out of the text;
/// deleting a selection takes it out of the text and leaves the clipboard.
pub proof fn law_cutting_copies_and_deletes(
    a: App,
    key: KeyEvent,
    system: Option<String>,
    r: KeyStep,
    b: App,
    c: App,
)
    requires
        a.wf(),
        a.shown() is Some,
        a.shown()->0.selections_ok(),
        acts(a, KeyAction::CutSelection, key, system, r, b),
    ensures
        acts(a, KeyAction::CopySelection, key, system, r, c) ==> b.clipboard_text@
            == c.clipboard_text@ && b.clipboard_dirty == c.clipboard_dirty,
        acts(a, KeyAction::DeleteSelection, key, system, r, c) ==> b.tabs@ == c.tabs@
            && c.clipboard_text == a.clipboard_text,
        a.shown()->0.selection_text() is Some ==> shows_instead(
            a,
            a.shown()->0.without_selection(),
            b,
        ),
        a.shown()->0.selection_text() is None ==> b == a,
{
}

/// Pasting types what the clipboard holds, that of the system before the editor's
/// own, and leaves the clipboard.
pub proof fn law_pasting_types_the_clipboard(
    a: App,
    key: KeyEvent,
    system: Option<String>,
    r: KeyStep,
    b: App,
)
    requires
        a.shown() is Some,
        acts(a, KeyAction::Paste, key, system, r, b),
        r is Done,
    ensures
        b.clipboard_text == a.clipboard_text,
        ({
            let t = match system {
                Some(x) => x@,
                None => a.clipboard_text@,
            };
            if t.len() > 0 {
                shows_instead(a, a.shown()->0.pasted(t), b)
            } else {
                b.tabs == a.tabs
            }
        }),
{
}

/// Selecting all selects from the first place to the last with one caret. Escape
/// leaves one caret and the selection.
pub proof fn law_selecting_all_selects_everything(
    a: App,
    key: KeyEvent,
    system: Option<String>,
    r: KeyStep,
    b: App,
)
    requires
        a.wf(),
        a.shown() is Some,
    ensures
        acts(a, KeyAction::SelectAll, key, system, r, b) ==> b.shown() is Some && ({
            let s = b.shown()->0;
            &&& s.text == a.shown()->0.text
            &&& s.anchor == Some(0int)
            &&& s.cursor == s.text.len()
            &&& s.carets.len() == 0
        }),
        acts(a, KeyAction::ClearCarets, key, system, r, b) ==> b.shown() is Some && ({
            let s = b.shown()->0;
            &&& s.carets.len() == 0
            &&& s == (BufferState { carets: s.carets, ..a.shown()->0 })
        }),
{
}

/// The keys that edit or move do to the text that is showing what they do to a
/// text, wherever there is room for it, and leave all else.
pub proof fn law_editing_keys_act_on_the_text_shown(
    a: App,
    act: KeyAction,
    key: KeyEvent,
    system: Option<String>,
    r: KeyStep,
    b: App,
)
    requires
        a.wf(),
        a.shown() is Some,
        is_edit(act),
        acts(a, act, key, system, r, b),
    ensures
        a.shown()->0.can_edit(act) ==> shows_instead(a, a.shown()->0.edited_by(act), b),
        !a.shown()->0.can_edit(act) ==> b.tabs@ == a.tabs@ && r is NoRoom,
        b.clipboard_text == a.clipboard_text,
        a.shown()->0.selections_ok() && (act is Backspace || act is Delete || act is DeleteWordLeft
            || act is DeleteToLineStart) ==> a.shown()->0.can_edit(act),
        act is MoveCarets ==> a.shown()->0.can_edit(act),
{
    lemma_edits_text(a, act, key, system, r, b);
    lemma_text_edited(a, act, r, b);
    lemma_can_edit(a.shown()->0, act);
}

/// Whether the action is one that edits the text or moves its carets.
pub open spec fn is_edit(act: KeyAction) -> bool {
    act is InsertChar || act is Newline || act is InsertSoftTab || act is Indent || act is Outdent
        || act is Backspace || act is Delete || act is DeleteWordLeft || act is DeleteToLineStart
        || act is MoveCarets
}

proof fn lemma_edits_text(
    a: App,
    act: KeyAction,
    key: KeyEvent,
    system: Option<String>,
    r: KeyStep,
    b: App,
)
    requires
        is_edit(act),
        acts(a, act, key, system, r, b),
    ensures
        edits_text(a, act, r, b),
{
    match act {
        KeyAction::InsertChar(c) => {
            lemma_acts_insert_char(a, c, key, system, r, b);
        },
        KeyAction::Newline => {
            lemma_acts_newline(a, key, system, r, b);
        },
        KeyAction::InsertSoftTab => {
            lemma_acts_insert_soft_tab(a, key, system, r, b);
        },
        KeyAction::Indent => {
            lemma_acts_indent(a, key, system, r, b);
        },
        KeyAction::Outdent => {
            lemma_acts_outdent(a, key, system, r, b);
        },
        KeyAction::Backspace => {
            lemma_acts_backspace(a, key, system, r, b);
        },
        KeyAction::Delete => {
            lemma_acts_delete(a, key, system, r, b);
        },
        KeyAction::DeleteWordLeft => {
            lemma_acts_delete_word_left(a, key, system, r, b);
        },
        KeyAction::DeleteToLineStart => {
            lemma_acts_delete_to_line_start(a, key, system, r, b);
        },
        KeyAction::MoveCarets { to, select } => {
            lemma_acts_move_carets(a, to, select, key, system, r, b);
        },
        _ => {},
    }
}

proof fn lemma_acts_insert_char(
    a: App,
    c: char,
    key: KeyEvent,
    system: Option<String>,
    r: KeyStep,
    b: App,
)
    requires
        acts(a, KeyAction::InsertChar(c), key, system, r, b),
    ensures
        edits_text(a, KeyAction::InsertChar(c), r, b),
{
}

proof fn lemma_acts_newline(
    a: App,
    key: KeyEvent,
    system: Option<String>,
    r: KeyStep,
    b: App,
)
    requires
        acts(a, KeyAction::Newline, key, system, r, b),
    ensures
        edits_text(a, KeyAction::Newline, r, b),
{
}

proof fn lemma_acts_insert_soft_tab(
    a: App,
    key: KeyEvent,
    system: Option<String>,
    r: KeyStep,
    b: App,
)
    requires
        acts(a, KeyAction::InsertSoftTab, key, system, r, b),
    ensures
        edits_text(a, KeyAction::InsertSoftTab, r, b),
{
}

proof fn lemma_acts_indent(
    a: App,
    key: KeyEvent,
    system: Option<String>,
    r: KeyStep,
    b: App,
)
    requires
        acts(a, KeyAction::Indent, key, system, r, b),
    ensures
        edits_text(a, KeyAction::Indent, r, b),
{
}

proof fn lemma_acts_outdent(
    a: App,
    key: KeyEvent,
    system: Option<String>,
    r: KeyStep,
    b: App,
)
    requires
        acts(a, KeyAction::Outdent, key, system, r, b),
    ensures
        edits_text(a, KeyAction::Outdent, r, b),
{
}

proof fn lemma_acts_backspace(
    a: App,
    key: KeyEvent,
    system: Option<String>,
    r: KeyStep,
    b: App,
)
    requires
        acts(a, KeyAction::Backspace, key, system, r, b),
    ensures
        edits_text(a, KeyAction::Backspace, r, b),
{
}

proof fn lemma_acts_delete(
    a: App,
    key: KeyEvent,
    system: Option<String>,
    r: KeyStep,
    b: App,
)
    requires
        acts(a, KeyAction::Delete, key, system, r, b),
    ensures
        edits_text(a, KeyAction::Delete, r, b),
{
}

proof fn lemma_acts_delete_word_left(
    a: App,
    key: KeyEvent,
    system: Option<String>,
    r: KeyStep,
    b: App,
)
    requires
        acts(a, KeyAction::DeleteWordLeft, key, system, r, b),
    ensures
        edits_text(a, KeyAction::DeleteWordLeft, r, b),
{
}

proof fn lemma_acts_delete_to_line_start(
    a: App,
    key: KeyEvent,
    system: Option<String>,
    r: KeyStep,
    b: App,
)
    requires
        acts(a, KeyAction::DeleteToLineStart, key, system, r, b),
    ensures
        edits_text(a, KeyAction::DeleteToLineStart, r, b),
{
}

proof fn lemma_acts_move_carets(
    a: App,
    to: Move,
    select: bool,
    key: KeyEvent,
    system: Option<String>,
    r: KeyStep,
    b: App,
)
    requires
        acts(a, KeyAction::MoveCarets { to, select }, key, system, r, b),
    ensures
        edits_text(a, KeyAction::MoveCarets { to, select }, r, b),
{
}

proof fn lemma_text_edited(a: App, act: KeyAction, r: KeyStep, b: App)
    requires
        a.shown() is Some,
        edits_text(a, act, r, b),
    ensures
        a.shown()->0.can_edit(act) ==> shows_instead(a, a.shown()->0.edited_by(act), b),
        !a.shown()->0.can_edit(act) ==> b.tabs@ == a.tabs@ && r is NoRoom,
        b.clipboard_text == a.clipboard_text,
{
}

proof fn lemma_can_edit(s: BufferState, act: KeyAction)
    ensures
        s.selections_ok() && (act is Backspace || act is Delete || act is DeleteWordLeft
            || act is DeleteToLineStart) ==> s.can_edit(act),
        act is MoveCarets ==> s.can_edit(act),
{
}

/// Going to the next tab and back, moving a tab, showing all files and closing a
/// tab do to the row of tabs what their names say. A tab with unsaved changes is
/// not closed but asked about.
pub proof fn law_tab_keys_act_on_the_row_of_tabs(
    a: App,
    key: KeyEvent,
    system: Option<String>,
    r: KeyStep,
    b: App,
)
    requires
        a.wf(),
        a.shown() is Some,
    ensures
        acts(a, KeyAction::NextTab, key, system, r, b) ==> b.tabs@ == a.tabs@.turned(1),
        acts(a, KeyAction::PrevTab, key, system, r, b) ==> b.tabs@ == a.tabs@.turned(-1),
        acts(a, KeyAction::MoveTabLeft, key, system, r, b) ==> b.tabs@ == a.tabs@.moved_left(),
        acts(a, KeyAction::MoveTabRight, key, system, r, b) ==> b.tabs@ == a.tabs@.moved_right(),
        acts(a, KeyAction::ToggleGrid, key, system, r, b) ==> b.tabs@ == (TabsState {
            grid: !a.tabs@.grid,
            ..a.tabs@
        }),
        acts(a, KeyAction::CloseTab, key, system, r, b) && !a.shown()->0.modified ==> b.tabs@
            == a.tabs@.dropped(a.tabs@.active->0) && b.prompt == a.prompt,
        acts(a, KeyAction::CloseTab, key, system, r, b) && a.shown()->0.modified ==> b.tabs
            == a.tabs && b.prompt@ == PromptState::asking(
            PromptKind::CloseTab,
            match a.shown()->0.path {
                Some(p) => p,
                None => Seq::empty(),
            },
            Seq::empty(),
        ),
{
}

/// Saving, opening the file closed last again, and what is asked of files on disk
/// are left to be done, and nothing changes before that.
pub proof fn law_files_on_disk_are_left_to_do(
    a: App,
    act: KeyAction,
    key: KeyEvent,
    system: Option<String>,
    r: KeyStep,
    b: App,
)
    requires
        act is SaveActive || act is SaveAll || act is ReopenTab || act is QuitSaveCurrent
            || act is QuitSaveAll || act is AnswerCloseTab || act is AnswerCloseUnsaved
            || act is AnswerExternalChange || act is FilesToggleJunk || act is AnswerOpenUrl,
        acts(a, act, key, system, r, b),
    ensures
        b == a,
        r == KeyStep::Outside(act),
{
}

/// The keys of the terminals show the next one or the one before, move the one that
/// shows, go to the one with a number, show all, or close it; the text and the
/// files stay.
pub proof fn law_terminal_keys_act_on_the_row_of_terminals(
    a: App,
    key: KeyEvent,
    system: Option<String>,
    r: KeyStep,
    b: App,
    n: usize,
)
    ensures
        acts(a, KeyAction::Terminal(TermAction::Next), key, system, r, b) ==> b.terminals@
            == a.terminals@.turned(1) && b.tabs == a.tabs,
        acts(a, KeyAction::Terminal(TermAction::Prev), key, system, r, b) ==> b.terminals@
            == a.terminals@.turned(-1) && b.tabs == a.tabs,
        acts(a, KeyAction::Terminal(TermAction::MoveLeft), key, system, r, b) ==> b.terminals@
            == a.terminals@.moved_left() && b.tabs == a.tabs,
        acts(a, KeyAction::Terminal(TermAction::MoveRight), key, system, r, b) ==> b.terminals@
            == a.terminals@.moved_right() && b.tabs == a.tabs,
        acts(a, KeyAction::Terminal(TermAction::Jump(n)), key, system, r, b) ==> b.terminals@
            == a.terminals@.jumped(n as int) && b.tabs == a.tabs,
        acts(a, KeyAction::Terminal(TermAction::Close), key, system, r, b) ==> b.terminals@
            == a.terminals@.closed() && b.tabs == a.tabs,
        acts(a, KeyAction::Terminal(TermAction::New), key, system, r, b) ==> b == a && r is Needs,
        acts(a, KeyAction::Terminal(TermAction::SendKey), key, system, r, b) ==> b == a && r
            == KeyStep::Outside(KeyAction::Terminal(TermAction::SendKey)),
        acts(a, KeyAction::Terminal(TermAction::Paste), key, system, r, b) ==> b == a && r
            == KeyStep::Outside(KeyAction::Terminal(TermAction::Paste)),
{
}

/// Whether a dialog has the focus, with all others below it in their order.
pub open spec fn on_top(a: App, d: Dialog, b: App) -> bool {
    &&& b.dialogs@.len() > 0
    &&& b.dialogs@.last() == d
    &&& forall|x: Dialog| #[trigger]
        b.dialogs@.contains(x) == (x == d || a.dialogs@.contains(x))
}

proof fn lemma_raised(s: Seq<Dialog>, d: Dialog)
    requires
        s.no_duplicates(),
    ensures
        ({
            let r = crate::dialog::raised(s, d);
            &&& r.len() > 0
            &&& r.last() == d
            &&& forall|x: Dialog| #[trigger] r.contains(x) == (x == d || s.contains(x))
        }),
{
    let m = crate::dialog::dismissed(s, d);
    let r = crate::dialog::raised(s, d);
    assert(r[m.len() as int] == d);
    assert forall|x: Dialog| #[trigger] r.contains(x) == (x == d || s.contains(x)) by {
        if s.contains(d) {
            let i = s.index_of(d);
            assert(s[i] == d && 0 <= i < s.len());
            if s.contains(x) && x != d {
                let k = choose|k: int| 0 <= k < s.len() && s[k] == x;
                let o = if k < i {
                    k
                } else {
                    k - 1
                };
                assert(m[o] == x);
                assert(r[o] == x);
            }
            if r.contains(x) {
                let k = choose|k: int| 0 <= k < r.len() && r[k] == x;
                if k < m.len() {
                    let o = if k < i {
                        k
                    } else {
                        k + 1
                    };
                    assert(s[o] == x);
                }
            }
        } else {
            if s.contains(x) {
                let k = choose|k: int| 0 <= k < s.len() && s[k] == x;
                assert(r[k] == x);
            }
            if r.contains(x) {
                let k = choose|k: int| 0 <= k < r.len() && r[k] == x;
                if k < m.len() {
                    assert(s[k] == x);
                }
            }
        }
    }
}

/// The chords that open a dialog give that dialog the focus and keep the others
/// open below it; the files, the search and the terminals need a folder. Escape
/// closes the dialog that has the focus and no other.
pub proof fn law_chords_open_their_dialogs(
    a: App,
    key: KeyEvent,
    system: Option<String>,
    r: KeyStep,
    b: App,
)
    requires
        a.wf(),
    ensures
        acts(a, KeyAction::OpenHelp, key, system, r, b) ==> on_top(a, Dialog::Help, b),
        acts(a, KeyAction::OpenRecent, key, system, r, b) ==> on_top(a, Dialog::Recent, b),
        acts(a, KeyAction::OpenTodos, key, system, r, b) ==> on_top(a, Dialog::Todos, b),
        acts(a, KeyAction::OpenClipboard, key, system, r, b) ==> on_top(a, Dialog::Clipboard, b),
        acts(a, KeyAction::OpenSettings, key, system, r, b) ==> on_top(a, Dialog::Settings, b),
        acts(a, KeyAction::OpenFiles, key, system, r, b) && a.root is Some ==> on_top(
            a,
            Dialog::Files,
            b,
        ),
        acts(a, KeyAction::OpenSearchFiles, key, system, r, b) && a.root is Some ==> on_top(
            a,
            Dialog::SearchFiles,
            b,
        ),
        acts(a, KeyAction::ToggleTerminal, key, system, r, b) && a.root is Some && !(
        a.dialogs@.len() > 0 && a.dialogs@.last() == Dialog::Terminal) ==> on_top(
            a,
            Dialog::Terminal,
            b,
        ),
        acts(a, KeyAction::ToggleTerminal, key, system, r, b) && a.root is Some && a.dialogs@.len()
            > 0 && a.dialogs@.last() == Dialog::Terminal ==> b.dialogs@ == a.dialogs@.drop_last(),
        (acts(a, KeyAction::OpenFiles, key, system, r, b) || acts(
            a,
            KeyAction::OpenSearchFiles,
            key,
            system,
            r,
            b,
        ) || acts(a, KeyAction::ToggleTerminal, key, system, r, b)) && a.root is None ==> b.dialogs
            == a.dialogs,
        acts(a, KeyAction::CloseTopDialog, key, system, r, b) && a.dialogs@.len() > 0 ==> b.dialogs@
            == a.dialogs@.drop_last() && b.tabs == a.tabs,
{
    lemma_raised(a.dialogs@, Dialog::Help);
    lemma_raised(a.dialogs@, Dialog::Recent);
    lemma_raised(a.dialogs@, Dialog::Todos);
    lemma_raised(a.dialogs@, Dialog::Clipboard);
    lemma_raised(a.dialogs@, Dialog::Settings);
    lemma_raised(a.dialogs@, Dialog::Files);
    lemma_raised(a.dialogs@, Dialog::SearchFiles);
    lemma_raised(a.dialogs@, Dialog::Terminal);
}

} // verus!
