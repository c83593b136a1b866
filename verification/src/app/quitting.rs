//! Quitting. Every file with unsaved changes and every terminal with a running
//! command is asked about first, and saying no to any of them calls it off.

use crate::app::files::SaveOutcome;
use crate::app::{App, QuitBlocker, QuitFlow};
use crate::buffer::state::BufferState;
use crate::paths::display_name;
use crate::prompt::{PromptKind, PromptState};
use crate::tabs::TabsState;
use crate::terminals::TerminalState;
use crate::text::between;
use crate::toast::ToastKind;
use vstd::prelude::*;
use vstd::string::*;

verus! {

/// The first `n` files with unsaved changes.
pub open spec fn unsaved_files(editors: Seq<BufferState>, n: int) -> Seq<QuitBlocker>
    decreases n,
{
    if n <= 0 {
        Seq::empty()
    } else if editors[n - 1].modified {
        unsaved_files(editors, n - 1).push(QuitBlocker::UnsavedFile((n - 1) as usize))
    } else {
        unsaved_files(editors, n - 1)
    }
}

/// The first `n` terminals with a running command.
pub open spec fn running_terminals(list: Seq<TerminalState>, n: int) -> Seq<QuitBlocker>
    decreases n,
{
    if n <= 0 {
        Seq::empty()
    } else if list[n - 1].running {
        running_terminals(list, n - 1).push(QuitBlocker::RunningTerminal((n - 1) as usize))
    } else {
        running_terminals(list, n - 1)
    }
}

/// What a buffer is called.
pub open spec fn buffer_name(b: BufferState) -> Seq<char> {
    match b.path {
        Some(p) => display_name(p),
        None => "[new]"@,
    }
}

/// The question about a file. With `more` to come, all of them can be answered
/// at once.
pub open spec fn file_question(name: Seq<char>, more: bool) -> Seq<char> {
    "\""@ + name + "\" has unsaved changes.   Y = save & quit,  N = discard,"@ + if more {
        "  A = save all,  D = discard all,"@
    } else {
        Seq::empty()
    } + "  Esc = cancel"@
}

/// The question about a terminal.
pub open spec fn terminal_question(name: Seq<char>, more: bool) -> Seq<char> {
    "\""@ + name + "\" is still running.   Y = close & quit,"@ + if more {
        "  A = close all,"@
    } else {
        Seq::empty()
    } + "  N/Esc = cancel"@
}

/// The prompt that asks about the blocker at `pos`.
pub open spec fn question_at(a: App, queue: Seq<QuitBlocker>, pos: int) -> PromptState {
    let more = queue.len() - pos > 1;
    match queue[pos] {
        QuitBlocker::UnsavedFile(i) => PromptState::confirming(
            PromptKind::QuitUnsaved,
            file_question(
                if i < a.tabs@.editors.len() {
                    buffer_name(a.tabs@.editors[i as int])
                } else {
                    "file"@
                },
                more,
            ),
        ),
        QuitBlocker::RunningTerminal(i) => PromptState::confirming(
            PromptKind::QuitTerminal,
            terminal_question(
                if i < a.terminals@.list.len() {
                    a.terminals@.list[i as int].name
                } else {
                    "terminal"@
                },
                more,
            ),
        ),
    }
}

/// Whether `b` is `a` after the question at `pos` of `queue` was put, or after
/// the editor was told to quit because no question is left.
pub open spec fn asks_next(a: App, queue: Seq<QuitBlocker>, pos: int, b: App) -> bool {
    &&& b == App {
        prompt: b.prompt,
        quit: b.quit,
        should_quit: b.should_quit,
        ..a
    }
    &&& if pos < queue.len() {
        &&& b.prompt@ == question_at(a, queue, pos)
        &&& b.quit.queue@ == queue && b.quit.pos == pos
        &&& b.should_quit == a.should_quit
    } else {
        &&& b.prompt@ == a.prompt@
        &&& b.quit.idle()
        &&& b.should_quit
    }
}

/// The files among the blockers `from..to`, in their order.
pub open spec fn files_among(queue: Seq<QuitBlocker>, from: int, to: int) -> Seq<usize>
    decreases to - from,
{
    if to <= from {
        Seq::empty()
    } else {
        match queue[to - 1] {
            QuitBlocker::UnsavedFile(i) => files_among(queue, from, to - 1).push(i),
            QuitBlocker::RunningTerminal(_) => files_among(queue, from, to - 1),
        }
    }
}

/// The tabs after saving the files from the `k`-th blocker on, and whether all
/// of them could be saved. The first failure stops it.
pub open spec fn saved_from(
    t: TabsState,
    queue: Seq<QuitBlocker>,
    o: Seq<SaveOutcome>,
    k: int,
) -> (TabsState, bool)
    decreases queue.len() - k,
{
    if k >= queue.len() {
        (t, true)
    } else {
        match queue[k] {
            QuitBlocker::UnsavedFile(i) => if i < t.editors.len() {
                match o[i as int] {
                    SaveOutcome::Written(disk) => saved_from(
                        t.saved(i as int, disk),
                        queue,
                        o,
                        k + 1,
                    ),
                    SaveOutcome::Failed(_) => (t, false),
                }
            } else {
                saved_from(t, queue, o, k + 1)
            },
            QuitBlocker::RunningTerminal(_) => saved_from(t, queue, o, k + 1),
        }
    }
}

/// Whether `b` is `a` with the tabs `t`, after quitting was called off.
pub open spec fn called_off(a: App, t: TabsState, b: App) -> bool {
    &&& b == App {
        tabs: b.tabs,
        prompt: b.prompt,
        quit: b.quit,
        toast: b.toast,
        ..a
    }
    &&& b.tabs@ == t
    &&& b.prompt@ == PromptState::closed()
    &&& b.quit.idle()
    &&& b.tells("Quit cancelled"@, ToastKind::Info)
}

impl App {
    /// What stands in the way of quitting.
    pub open spec fn blockers(self) -> Seq<QuitBlocker> {
        unsaved_files(self.tabs@.editors, self.tabs@.editors.len() as int) + running_terminals(
            self.terminals@.list,
            self.terminals@.list.len() as int,
        )
    }

    /// What stands in the way of quitting.
    fn quit_blockers(&self) -> (r: Vec<QuitBlocker>)
        requires
            self.wf(),
        ensures
            r@ == self.blockers(),
    {
        let mut queue: Vec<QuitBlocker> = Vec::new();
        let mut i: usize = 0;
        while i < self.tabs.editors.len()
            invariant
                i <= self.tabs.editors@.len(),
                queue@ == unsaved_files(self.tabs@.editors, i as int),
            decreases self.tabs.editors.len() - i,
        {
            assert(self.tabs@.editors[i as int] == self.tabs.editors@[i as int]@);
            if self.tabs.editors[i].modified {
                queue.push(QuitBlocker::UnsavedFile(i));
            }
            i = i + 1;
        }
        let ghost files = queue@;
        let mut j: usize = 0;
        assert(files + running_terminals(self.terminals@.list, 0) =~= files);
        while j < self.terminals.list.len()
            invariant
                j <= self.terminals.list@.len(),
                queue@ == files + running_terminals(self.terminals@.list, j as int),
            decreases self.terminals.list.len() - j,
        {
            assert(self.terminals@.list[j as int] == self.terminals.list@[j as int]@);
            let ghost before = running_terminals(self.terminals@.list, j as int);
            if self.terminals.list[j].running {
                queue.push(QuitBlocker::RunningTerminal(j));
                assert(queue@ =~= files + before.push(QuitBlocker::RunningTerminal(j)));
            }
            j = j + 1;
        }
        queue
    }

    /// Start quitting. With nothing in the way the editor quits at once, else
    /// the first question is put. A second request while questions are open
    /// does nothing.
    pub fn request_quit(&mut self)
        requires
            old(self).wf(),
        ensures
            asks_to_quit(*old(self), *final(self)),
            final(self).wf(),
    {
        if self.quit.quitting {
            return;
        }
        let queue = self.quit_blockers();
        if queue.len() == 0 {
            self.should_quit = true;
            return;
        }
        self.quit = QuitFlow { quitting: true, queue, pos: 0 };
        self.prompt_next_quit_blocker();
    }

    /// Put the next question, or quit where none is left.
    fn prompt_next_quit_blocker(&mut self)
        requires
            old(self).wf(),
        ensures
            asks_next(
                *old(self),
                old(self).quit.queue@,
                old(self).quit.pos as int,
                *final(self),
            ),
            old(self).quit.pos < old(self).quit.queue@.len() ==> final(self).quit.quitting == old(
                self,
            ).quit.quitting,
            final(self).wf(),
    {
        let pos: usize = self.quit.pos;
        let more = self.quit.queue.len() - pos > 1;
        if pos >= self.quit.queue.len() {
            self.quit = QuitFlow { quitting: false, queue: Vec::new(), pos: 0 };
            self.should_quit = true;
            return;
        }
        match self.quit.queue[pos] {
            QuitBlocker::UnsavedFile(i) => {
                let name = if i < self.tabs.editors.len() {
                    assert(self.tabs@.editors[i as int] == self.tabs.editors@[i as int]@);
                    self.tabs.editors[i].name()
                } else {
                    "file".to_owned()
                };
                let mut m = between(
                    "\"",
                    name.as_str(),
                    "\" has unsaved changes.   Y = save & quit,  N = discard,",
                );
                if more {
                    m.append("  A = save all,  D = discard all,");
                }
                m.append("  Esc = cancel");
                assert(m@ =~= file_question(name@, more));
                self.prompt.open_confirm(PromptKind::QuitUnsaved, m);
            },
            QuitBlocker::RunningTerminal(i) => {
                let name = if i < self.terminals.list.len() {
                    assert(self.terminals@.list[i as int] == self.terminals.list@[i as int]@);
                    self.terminals.list[i].name.clone()
                } else {
                    "terminal".to_owned()
                };
                let mut m = between(
                    "\"",
                    name.as_str(),
                    "\" is still running.   Y = close & quit,",
                );
                if more {
                    m.append("  A = close all,");
                }
                m.append("  N/Esc = cancel");
                assert(m@ =~= terminal_question(name@, more));
                self.prompt.open_confirm(PromptKind::QuitTerminal, m);
            },
        }
    }

    /// The file that the open question is about.
    pub open spec fn file_in_question(self) -> Option<int> {
        if self.quit.pos < self.quit.queue@.len() {
            match self.quit.queue@[self.quit.pos as int] {
                QuitBlocker::UnsavedFile(i) => if i < self.tabs@.editors.len() {
                    Some(i as int)
                } else {
                    None
                },
                QuitBlocker::RunningTerminal(_) => None,
            }
        } else {
            None
        }
    }

    /// The file that the open question is about.
    pub fn file_asked_about(&self) -> (r: Option<usize>)
        ensures
            crate::buffer::opt_int(r) == self.file_in_question(),
    {
        if self.quit.pos < self.quit.queue.len() {
            if let QuitBlocker::UnsavedFile(i) = self.quit.queue[self.quit.pos] {
                if i < self.tabs.editors.len() {
                    return Some(i);
                }
            }
        }
        None
    }

    /// The files that are still to be asked about, the one in question first.
    pub fn files_to_ask_about(&self) -> (r: Vec<usize>)
        requires
            self.wf(),
        ensures
            r@ == files_among(
                self.quit.queue@,
                self.quit.pos as int,
                self.quit.queue@.len() as int,
            ),
    {
        let mut r: Vec<usize> = Vec::new();
        let mut k: usize = self.quit.pos;
        while k < self.quit.queue.len()
            invariant
                self.quit.pos <= k <= self.quit.queue@.len(),
                r@ == files_among(self.quit.queue@, self.quit.pos as int, k as int),
            decreases self.quit.queue.len() - k,
        {
            if let QuitBlocker::UnsavedFile(i) = self.quit.queue[k] {
                r.push(i);
            }
            k = k + 1;
        }
        r
    }

    /// Go on to the next question after the file asked about was saved. Where
    /// that failed, quitting is called off.
    pub fn quit_save_current(&mut self, outcome: SaveOutcome)
        requires
            old(self).wf(),
            old(self).quit.pos < old(self).quit.queue@.len(),
        ensures
            match (old(self).file_in_question(), outcome) {
                (Some(_), SaveOutcome::Failed(_)) => called_off(
                    *old(self),
                    old(self).tabs@,
                    *final(self),
                ),
                (Some(i), SaveOutcome::Written(disk)) => {
                    &&& final(self).tabs@ == old(self).tabs@.saved(i, disk)
                    &&& asks_next_closed(
                        App { tabs: final(self).tabs, ..*old(self) },
                        old(self).quit.queue@,
                        old(self).quit.pos + 1,
                        *final(self),
                    )
                },
                (None, _) => asks_next_closed(
                    *old(self),
                    old(self).quit.queue@,
                    old(self).quit.pos + 1,
                    *final(self),
                ),
            },
            final(self).wf(),
    {
        if let Some(i) = self.file_asked_about() {
            match outcome {
                SaveOutcome::Written(disk) => {
                    self.tabs.mark_saved(i, disk);
                },
                SaveOutcome::Failed(_) => {
                    self.cancel_quit();
                    return;
                },
            }
        }
        self.advance_quit();
    }

    /// Go on to the next question, leaving what was asked about as it is.
    pub fn quit_skip_current(&mut self)
        requires
            old(self).wf(),
            old(self).quit.pos < old(self).quit.queue@.len(),
        ensures
            asks_next_closed(
                *old(self),
                old(self).quit.queue@,
                old(self).quit.pos + 1,
                *final(self),
            ),
            final(self).wf(),
    {
        self.advance_quit();
    }

    fn advance_quit(&mut self)
        requires
            old(self).wf(),
            old(self).quit.pos < old(self).quit.queue@.len(),
        ensures
            asks_next_closed(
                *old(self),
                old(self).quit.queue@,
                old(self).quit.pos + 1,
                *final(self),
            ),
            final(self).wf(),
    {
        self.prompt.close();
        let n: usize = self.quit.queue.len();
        assert(self.quit.pos < n);
        self.quit.pos = self.quit.pos + 1;
        self.prompt_next_quit_blocker();
    }

    /// Save every file that is still to be asked about, and quit. There is one
    /// outcome for each tab; the first failure calls quitting off.
    pub fn quit_save_all(&mut self, outcomes: &Vec<SaveOutcome>)
        requires
            old(self).wf(),
            outcomes@.len() == old(self).tabs@.editors.len(),
        ensures
            ({
                let (t, all) = saved_from(
                    old(self).tabs@,
                    old(self).quit.queue@,
                    outcomes@,
                    old(self).quit.pos as int,
                );
                if all {
                    &&& final(self).tabs@ == t
                    &&& quits(App { tabs: final(self).tabs, ..*old(self) }, *final(self))
                } else {
                    called_off(*old(self), t, *final(self))
                }
            }),
            final(self).wf(),
    {
        let ghost a = *self;
        let ghost q = self.quit.queue@;
        let mut k: usize = self.quit.pos;
        while k < self.quit.queue.len()
            invariant
                self.wf(),
                *self == (App { tabs: self.tabs, ..a }),
                a == *old(self),
                q == a.quit.queue@,
                k <= q.len(),
                self.tabs@.editors.len() == outcomes@.len(),
                saved_from(a.tabs@, q, outcomes@, a.quit.pos as int) == saved_from(
                    self.tabs@,
                    q,
                    outcomes@,
                    k as int,
                ),
            decreases self.quit.queue.len() - k,
        {
            if let QuitBlocker::UnsavedFile(i) = self.quit.queue[k] {
                if i < self.tabs.editors.len() {
                    match &outcomes[i] {
                        SaveOutcome::Written(disk) => {
                            self.tabs.mark_saved(i, *disk);
                        },
                        SaveOutcome::Failed(_) => {
                            self.cancel_quit();
                            return;
                        },
                    }
                }
            }
            k = k + 1;
        }
        self.finish_quit();
    }

    /// Quit, leaving every file as it is.
    pub fn quit_discard_all(&mut self)
        requires
            old(self).wf(),
        ensures
            quits(*old(self), *final(self)),
            final(self).wf(),
    {
        self.finish_quit();
    }

    /// No question is left: quit.
    fn finish_quit(&mut self)
        requires
            old(self).wf(),
        ensures
            quits(*old(self), *final(self)),
            final(self).wf(),
    {
        self.prompt.close();
        self.quit = QuitFlow { quitting: false, queue: Vec::new(), pos: 0 };
        self.should_quit = true;
    }

    /// Call quitting off, leaving everything open.
    pub fn cancel_quit(&mut self)
        requires
            old(self).wf(),
        ensures
            called_off(*old(self), old(self).tabs@, *final(self)),
            final(self).tabs == old(self).tabs,
            final(self).wf(),
    {
        self.prompt.close();
        self.quit = QuitFlow { quitting: false, queue: Vec::new(), pos: 0 };
        self.notify("Quit cancelled".to_owned(), ToastKind::Info);
    }
}

/// Whether `b` is `a` after the open question was closed and the one at `pos`
/// was put.
pub open spec fn asks_next_closed(a: App, queue: Seq<QuitBlocker>, pos: int, b: App) -> bool {
    &&& b == App {
        prompt: b.prompt,
        quit: b.quit,
        should_quit: b.should_quit,
        ..a
    }
    &&& if pos < queue.len() {
        &&& b.prompt@ == question_at(a, queue, pos)
        &&& b.quit.quitting == a.quit.quitting && b.quit.queue@ == queue && b.quit.pos == pos
        &&& b.should_quit == a.should_quit
    } else {
        &&& b.prompt@ == PromptState::closed()
        &&& b.quit.idle()
        &&& b.should_quit
    }
}

/// Whether `b` is `a` after the editor was told to quit.
pub open spec fn quits(a: App, b: App) -> bool {
    &&& b == App {
        prompt: b.prompt,
        quit: b.quit,
        should_quit: true,
        ..a
    }
    &&& b.prompt@ == PromptState::closed()
    &&& b.quit.idle()
}

/// Nothing stands in the way of quitting exactly where no file has unsaved
/// changes and no terminal runs a command.
pub proof fn law_the_editor_quits_unasked_only_when_nothing_is_lost(a: App)
    ensures
        a.blockers().len() == 0 <==> {
            &&& forall|i: int|
                0 <= i < a.tabs@.editors.len() ==> !(#[trigger] a.tabs@.editors[i]).modified
            &&& forall|i: int|
                0 <= i < a.terminals@.list.len() ==> !(#[trigger] a.terminals@.list[i]).running
        },
{
    lemma_unsaved_files(a.tabs@.editors, a.tabs@.editors.len() as int);
    lemma_running_terminals(a.terminals@.list, a.terminals@.list.len() as int);
}

/// There are unsaved files where some file has unsaved changes.
pub proof fn lemma_unsaved_files(editors: Seq<BufferState>, n: int)
    requires
        0 <= n <= editors.len(),
    ensures
        unsaved_files(editors, n).len() == 0 <==> forall|i: int|
            0 <= i < n ==> !(#[trigger] editors[i]).modified,
    decreases n,
{
    if n > 0 {
        lemma_unsaved_files(editors, n - 1);
        assert(editors[n - 1].modified ==> !(forall|i: int|
            0 <= i < n ==> !(#[trigger] editors[i]).modified));
    }
}

/// There are running terminals where some terminal runs a command.
pub proof fn lemma_running_terminals(list: Seq<TerminalState>, n: int)
    requires
        0 <= n <= list.len(),
    ensures
        running_terminals(list, n).len() == 0 <==> forall|i: int|
            0 <= i < n ==> !(#[trigger] list[i]).running,
    decreases n,
{
    if n > 0 {
        lemma_running_terminals(list, n - 1);
        assert(list[n - 1].running ==> !(forall|i: int|
            0 <= i < n ==> !(#[trigger] list[i]).running));
    }
}

/// Calling it off leaves every file and terminal as it was.
pub proof fn law_calling_it_off_changes_nothing(a: App, b: App)
    requires
        called_off(a, a.tabs@, b),
    ensures
        b.tabs@ == a.tabs@,
        b.terminals == a.terminals,
        b.should_quit == a.should_quit,
        b.dialogs == a.dialogs,
        b.quit.idle(),
{
}

/// Whether asking to quit makes `b` of `a`.
pub open spec fn asks_to_quit(a: App, b: App) -> bool {
    if a.quit.quitting {
        b == a
    } else if a.blockers().len() == 0 {
        b == (App { should_quit: true, ..a })
    } else {
        asks_next(a, a.blockers(), 0, b) && b.quit.quitting
    }
}

} // verus!
