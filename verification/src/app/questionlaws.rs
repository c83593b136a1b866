//! What stands in the way of quitting, what is done about files that changed on
//! disk, and what the mouse does in a terminal.

use crate::app::acting::{acts, KeyStep};
use crate::app::disk::{checked_one, reloaded, Checked, Seen};
use crate::app::files::{after_save, ReadOutcome, SaveOutcome};
use crate::app::quitting::{running_terminals, saved_from, unsaved_files};
use crate::app::terminal::{presses_terminal, TermMouse};
use crate::app::{App, QuitBlocker};
use crate::buffer::state::{BufferState, DiskMeta};
use crate::input::actions::KeyAction;
use crate::keyevent::KeyEvent;
use crate::prompt::PromptKind;
use crate::tablaws::law_the_first_unsaved_file_is_found;
use crate::tabs::TabsState;
use crate::terminals::TerminalState;
use vstd::prelude::*;

verus! {

proof fn lemma_unsaved_files(editors: Seq<BufferState>, n: int)
    requires
        0 <= n <= editors.len(),
        editors.len() <= usize::MAX,
    ensures
        forall|i: usize| #[trigger]
            unsaved_files(editors, n).contains(QuitBlocker::UnsavedFile(i)) == (i < n
                && editors[i as int].modified),
        forall|k: int|
            0 <= k < unsaved_files(editors, n).len() ==> (#[trigger] unsaved_files(
                editors,
                n,
            )[k]) is UnsavedFile && unsaved_files(editors, n)[k]->UnsavedFile_0 < n,
    decreases n,
{
    if n > 0 {
        lemma_unsaved_files(editors, n - 1);
        let f = unsaved_files(editors, n - 1);
        let r = unsaved_files(editors, n);
        assert forall|i: usize| #[trigger] r.contains(QuitBlocker::UnsavedFile(i)) == (i < n
            && editors[i as int].modified) by {
            let x = QuitBlocker::UnsavedFile(i);
            assert(f.contains(x) == (i < n - 1 && editors[i as int].modified));
            if f.contains(x) {
                let k = choose|k: int| 0 <= k < f.len() && f[k] == x;
                assert(r[k] == x);
            }
            if r.contains(x) {
                let k = choose|k: int| 0 <= k < r.len() && r[k] == x;
                if k < f.len() {
                    assert(f[k] == x);
                }
            }
            if editors[n - 1].modified {
                assert(r[f.len() as int] == QuitBlocker::UnsavedFile((n - 1) as usize));
            }
        }
        assert forall|k: int| 0 <= k < r.len() implies (#[trigger] r[k]) is UnsavedFile
            && r[k]->UnsavedFile_0 < n by {
            if k < f.len() {
                assert(r[k] == f[k]);
            }
        }
    }
}

proof fn lemma_running(list: Seq<TerminalState>, n: int)
    requires
        0 <= n <= list.len(),
        list.len() <= usize::MAX,
    ensures
        forall|i: usize| #[trigger]
            running_terminals(list, n).contains(QuitBlocker::RunningTerminal(i)) == (i < n
                && list[i as int].running),
        forall|k: int|
            0 <= k < running_terminals(list, n).len() ==> (#[trigger] running_terminals(
                list,
                n,
            )[k]) is RunningTerminal,
    decreases n,
{
    if n > 0 {
        lemma_running(list, n - 1);
        let f = running_terminals(list, n - 1);
        let r = running_terminals(list, n);
        assert forall|i: usize| #[trigger] r.contains(QuitBlocker::RunningTerminal(i)) == (i < n
            && list[i as int].running) by {
            let x = QuitBlocker::RunningTerminal(i);
            assert(f.contains(x) == (i < n - 1 && list[i as int].running));
            if f.contains(x) {
                let k = choose|k: int| 0 <= k < f.len() && f[k] == x;
                assert(r[k] == x);
            }
            if r.contains(x) {
                let k = choose|k: int| 0 <= k < r.len() && r[k] == x;
                if k < f.len() {
                    assert(f[k] == x);
                }
            }
            if list[n - 1].running {
                assert(r[f.len() as int] == QuitBlocker::RunningTerminal((n - 1) as usize));
            }
        }
        assert forall|k: int| 0 <= k < r.len() implies (#[trigger] r[k]) is RunningTerminal by {
            if k < f.len() {
                assert(r[k] == f[k]);
            }
        }
    }
}

/// What stands in the way of quitting is every file with unsaved changes and every
/// terminal with a running command, and nothing else; the files come first.
pub proof fn law_unsaved_files_and_running_terminals_block(a: App, i: usize)
    requires
        a.wf(),
    ensures
        a.blockers().contains(QuitBlocker::UnsavedFile(i)) == (i < a.tabs@.editors.len()
            && a.tabs@.editors[i as int].modified),
        a.blockers().contains(QuitBlocker::RunningTerminal(i)) == (i < a.terminals@.list.len()
            && a.terminals@.list[i as int].running),
        forall|j: int, k: int|
            0 <= j < k < a.blockers().len() && (#[trigger] a.blockers()[k]) is UnsavedFile ==> (
            #[trigger] a.blockers()[j]) is UnsavedFile,
{
    let e = a.tabs@.editors;
    let t = a.terminals@.list;
    assert(e.len() == a.tabs.editors.len());
    assert(t.len() == a.terminals.list.len());
    lemma_unsaved_files(e, e.len() as int);
    lemma_running(t, t.len() as int);
    let f = unsaved_files(e, e.len() as int);
    let r = running_terminals(t, t.len() as int);
    let all = a.blockers();
    assert(all == f + r);
    let x = QuitBlocker::UnsavedFile(i);
    let y = QuitBlocker::RunningTerminal(i);
    if all.contains(x) {
        let k = choose|k: int| 0 <= k < all.len() && all[k] == x;
        if k >= f.len() {
            assert(r[k - f.len()] is RunningTerminal);
        } else {
            assert(f[k] == x);
        }
    }
    if f.contains(x) {
        let k = choose|k: int| 0 <= k < f.len() && f[k] == x;
        assert(all[k] == x);
    }
    if all.contains(y) {
        let k = choose|k: int| 0 <= k < all.len() && all[k] == y;
        if k < f.len() {
            assert(f[k] is UnsavedFile);
        } else {
            assert(r[k - f.len()] == y);
        }
    }
    if r.contains(y) {
        let k = choose|k: int| 0 <= k < r.len() && r[k] == y;
        assert(all[k + f.len()] == y);
    }
    assert forall|j: int, k: int| 0 <= j < k < all.len() && (#[trigger] all[k]) is UnsavedFile
        implies (#[trigger] all[j]) is UnsavedFile by {
        if k >= f.len() {
            assert(r[k - f.len()] is RunningTerminal);
        }
        assert(f[j] is UnsavedFile);
    }
}

/// Asking to quit quits at once where nothing stands in the way, and else puts the
/// first question and does not quit. Discarding all quits; calling it off does not.
/// None of it changes a text.
pub proof fn law_quitting_asks_first(
    a: App,
    key: KeyEvent,
    system: Option<String>,
    r: KeyStep,
    b: App,
)
    requires
        !a.quit.quitting,
    ensures
        acts(a, KeyAction::RequestQuit, key, system, r, b) ==> b.tabs == a.tabs && (
        a.blockers().len() == 0 ==> b.should_quit) && (a.blockers().len() > 0 ==> b.should_quit
            == a.should_quit && b.prompt@.active && b.quit.quitting && b.quit.pos == 0),
        acts(a, KeyAction::QuitDiscardAll, key, system, r, b) ==> b.should_quit && b.tabs == a.tabs,
        acts(a, KeyAction::CancelQuit, key, system, r, b) ==> b.should_quit == a.should_quit
            && b.tabs == a.tabs && !b.prompt@.active,
{
}

/// Saving keeps the text of a file, which is the saved one where it was written;
/// where it could not be written, the file stays as it was, unsaved.
pub proof fn law_a_failed_save_changes_nothing(b: BufferState, o: SaveOutcome)
    ensures
        after_save(b, o).text == b.text,
        o is Failed ==> after_save(b, o) == b,
        o is Written ==> !after_save(b, o).modified && after_save(b, o).saved == b.text
            && after_save(b, o).undo == b.undo,
{
}

/// Closing all files closes none with unsaved changes: the first of them shows and
/// is asked about. Where every change is saved, all are closed.
pub proof fn law_closing_all_asks_about_unsaved_files(
    a: App,
    key: KeyEvent,
    system: Option<String>,
    r: KeyStep,
    b: App,
)
    requires
        a.wf(),
        acts(a, KeyAction::CloseAll, key, system, r, b),
    ensures
        (exists|k: int| 0 <= k < a.tabs@.editors.len() && (#[trigger] a.tabs@.editors[k]).modified)
            ==> b.tabs@.editors == a.tabs@.editors && b.prompt@.asks == Some(
            PromptKind::CloseUnsaved,
        ) && b.shown() is Some && b.shown()->0.modified,
        (forall|k: int| 0 <= k < a.tabs@.editors.len() ==> !(#[trigger] a.tabs@.editors[k]).modified)
            ==> b.tabs@.editors.len() == 0 && b.prompt@ == a.prompt@,
{
    law_the_first_unsaved_file_is_found(a.tabs@.editors);
}

/// A file that changed on disk and has no unsaved changes takes the text that is
/// there now; one with unsaved changes keeps its text and is asked about; one that
/// is gone from the disk keeps its text and counts as unsaved; and one that is as
/// it was read stays.
pub proof fn law_files_follow_the_disk(c: Checked, seen: Seen, i: int, m: DiskMeta)
    requires
        0 <= i < c.editors.len(),
        c.editors[i].path is Some,
        c.editors[i].disk is Some,
    ensures
        ({
            let b = c.editors[i];
            let r = checked_one(c, seen, i);
            &&& seen.meta == b.disk ==> r == c
            &&& seen.meta is None ==> r.editors[i].text == b.text && r.editors[i].modified
                && r.editors[i].disk is None && r.asked == c.asked
            &&& seen.meta is Some && seen.meta != b.disk && b.modified ==> r.editors == c.editors
                && r.asked == Some(i)
            &&& seen.meta is Some && seen.meta != b.disk && !b.modified ==> (seen.read matches Some(
                ReadOutcome::Text { text, disk },
            ) ==> r.editors[i].text == text@ && r.editors[i].saved == text@
                && !r.editors[i].modified && r.editors[i].disk == disk && r.asked == c.asked)
            &&& forall|k: int|
                0 <= k < c.editors.len() && k != i ==> #[trigger] r.editors[k] == c.editors[k]
        }),
{
}

/// A file read again keeps its path and, as far as the new text reaches, the caret
/// and the view; its history and its selections go.
pub proof fn law_a_reloaded_file_keeps_its_place(
    b: BufferState,
    text: Seq<char>,
    disk: Option<DiskMeta>,
)
    requires
        b.wf(),
    ensures
        ({
            let r = reloaded(b, text, disk);
            &&& r.path == b.path
            &&& r.id == b.id
            &&& r.text == text
            &&& r.saved == text
            &&& !r.modified
            &&& b.cursor <= text.len() ==> r.cursor == b.cursor
            &&& b.cursor > text.len() ==> r.cursor == text.len()
            &&& r.carets.len() == 0 && r.anchor is None
            &&& r.undo.len() == 0 && r.redo.len() == 0
        }),
{
}

/// The wheel in a terminal: with Shift, or where no program wants it, it scrolls the
/// view; a program that asked for the mouse is told, with button 64 for up and 65
/// for down; a full-screen program that did not gets arrow keys. Never more than
/// ten at a time.
pub proof fn law_the_wheel_reaches_the_program(
    a: App,
    lines: i32,
    col: u16,
    row: u16,
    shift: bool,
)
    requires
        a.terminals@.current() is Some,
        lines != 0,
    ensures
        ({
            let t = a.terminals@.current()->0;
            let w = a.wheel(lines, col, row, shift);
            &&& shift || (!t.wants_mouse && !t.alternate_screen) ==> w == TermMouse::Scroll(lines)
            &&& !shift && !t.wants_mouse && t.alternate_screen ==> (w matches TermMouse::Arrows {
                up,
                times,
            } && up == (lines > 0) && 1 <= times <= 10 && (-10 <= lines <= 10 ==> times == if lines
                > 0 {
                lines as int
            } else {
                -lines
            }))
            &&& !shift && t.wants_mouse && a.layout.terminal_view is Some ==> (w matches
                TermMouse::Wheel { button, times, .. } && (lines > 0 ==> button == 64) && (lines < 0
                ==> button == 65) && 1 <= times <= 10)
        }),
{
}

/// A press in a terminal starts a selection at the cell under the mouse, a double
/// click takes the word and a triple click the line; beside the text the selection
/// is dropped.
pub proof fn law_presses_select_in_the_terminal(
    a: App,
    col: u16,
    row: u16,
    r: TermMouse,
    b: App,
)
    requires
        a.terminals@.current() is Some,
        a.layout.terminal_view is Some,
        presses_terminal(a, col, row, r, b),
    ensures
        ({
            let v = a.layout.terminal_view->0;
            let inside = v.x <= col < v.x + v.w && v.y <= row < v.y + v.h;
            let n = a.pointer.clicks.count;
            &&& !inside ==> r == TermMouse::Clear && b == a
            &&& inside && n < 2 ==> r == (TermMouse::Begin {
                row: (row - v.y) as u16,
                col: (col - v.x) as u16,
            })
            &&& inside && n == 2 ==> r == (TermMouse::SelectWord {
                row: (row - v.y) as u16,
                col: (col - v.x) as u16,
            })
            &&& inside && n >= 3 ==> r == (TermMouse::SelectLine { row: (row - v.y) as u16 })
            &&& inside ==> b.pointer.selecting
        }),
{
}

/// A program that asked for the mouse is told of the button and of the cell of the
/// terminal under it, or of the nearest one; a movement with the button held has 32
/// more in its number.
pub proof fn law_programs_are_told_of_the_mouse(
    a: App,
    col: u16,
    row: u16,
    release: bool,
    motion: bool,
)
    requires
        a.layout.terminal_view is Some,
        a.terminals@.current() is Some,
    ensures
        ({
            let v = a.layout.terminal_view->0;
            let r = a.report(col, row, 0, release, motion);
            &&& r matches TermMouse::Report { button, col: x, row: y, release: up } && up == release
                && (motion ==> button == 32) && (!motion ==> button == 0) && (v.x <= col < v.x + v.w
                ==> x == col - v.x) && (v.y <= row < v.y + v.h ==> y == row - v.y)
        }),
{
    assert(0u8 | 32u8 == 32u8) by (bit_vector);
}

/// Saving all files on the way out keeps every text, and succeeds only where every
/// file that is left in the queue could be written; the files that were written are
/// saved.
pub proof fn law_saving_on_the_way_out_keeps_the_texts(
    t: TabsState,
    queue: Seq<QuitBlocker>,
    o: Seq<SaveOutcome>,
    k: int,
)
    requires
        0 <= k,
        o.len() == t.editors.len(),
    ensures
        ({
            let r = saved_from(t, queue, o, k);
            &&& r.0.editors.len() == t.editors.len()
            &&& r.0.active == t.active
            &&& forall|i: int|
                0 <= i < t.editors.len() ==> (#[trigger] r.0.editors[i]).text == t.editors[i].text
            &&& r.1 ==> forall|j: int|
                k <= j < queue.len() ==> ((#[trigger] queue[j]) matches QuitBlocker::UnsavedFile(i)
                    ==> (i < t.editors.len() ==> o[i as int] is Written))
        }),
    decreases queue.len() - k,
{
    if k < queue.len() {
        match queue[k] {
            QuitBlocker::UnsavedFile(i) => if i < t.editors.len() {
                match o[i as int] {
                    SaveOutcome::Written(disk) => {
                        let s = t.saved(i as int, disk);
                        law_saving_on_the_way_out_keeps_the_texts(s, queue, o, k + 1);
                        assert forall|n: int| 0 <= n < t.editors.len() implies (
                        #[trigger] saved_from(t, queue, o, k).0.editors[n]).text
                            == t.editors[n].text by {
                            assert(s.editors[n].text == t.editors[n].text);
                        }
                    },
                    SaveOutcome::Failed(_) => {},
                }
            } else {
                law_saving_on_the_way_out_keeps_the_texts(t, queue, o, k + 1);
            },
            QuitBlocker::RunningTerminal(_) => {
                law_saving_on_the_way_out_keeps_the_texts(t, queue, o, k + 1);
            },
        }
    }
}

} // verus!
