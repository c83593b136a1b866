//! Opening, saving and closing files.

use crate::app::dialogs::torn_down;
use crate::app::App;
use crate::buffer::state::{BufferState, DiskMeta};
use crate::buffer::{fresh, opt_text, Buffer};
use crate::icons::{binary_file, is_binary};
use crate::paths::{base_name, file_name};
use crate::prompt::{PromptKind, PromptState};
use crate::tabs::{paths_of, tab_of, unsaved_from, TabsState};
use crate::text::{between, decimal, with_number};
use crate::toast::ToastKind;
use crate::filedialog::texts;
use vstd::prelude::*;
use vstd::string::*;

verus! {

/// What came of writing a file.
#[derive(Debug)]
pub enum SaveOutcome {
    /// It was written, and this is what the disk says of it now.
    Written(Option<DiskMeta>),
    Failed(String),
}

/// What came of reading a file.
#[derive(Debug)]
pub enum ReadOutcome {
    Text { text: String, disk: Option<DiskMeta> },
    Failed(String),
}

/// What opening a file led to.
#[derive(Debug, Clone, Copy, PartialEq, Eq, Structural)]
pub enum OpenStep {
    /// It was open already, and shows now.
    Shown,
    /// It is no text.
    Refused,
    /// It is to be read.
    Read,
}

/// A file's name, or nothing.
pub open spec fn name_or_none(path: Seq<char>) -> Seq<char> {
    match base_name(path) {
        Some(n) => n,
        None => Seq::empty(),
    }
}

/// A path, or the empty one.
pub open spec fn path_or_none(b: BufferState) -> Seq<char> {
    match b.path {
        Some(p) => p,
        None => Seq::empty(),
    }
}

/// A buffer after an attempt to save it.
pub open spec fn after_save(b: BufferState, o: SaveOutcome) -> BufferState {
    match o {
        SaveOutcome::Written(disk) => BufferState { saved: b.text, modified: false, disk, ..b },
        SaveOutcome::Failed(_) => b,
    }
}

/// The buffers after an attempt to save those with unsaved changes.
pub open spec fn after_saves(editors: Seq<BufferState>, o: Seq<SaveOutcome>) -> Seq<BufferState> {
    Seq::new(
        editors.len(),
        |i: int|
            if editors[i].modified {
                after_save(editors[i], o[i])
            } else {
                editors[i]
            },
    )
}

/// How many of the first `n` buffers had unsaved changes and were saved, or
/// could not be saved.
pub open spec fn count_saves(
    editors: Seq<BufferState>,
    o: Seq<SaveOutcome>,
    written: bool,
    n: int,
) -> nat
    decreases n,
{
    if n <= 0 {
        0
    } else {
        count_saves(editors, o, written, n - 1) + if editors[n - 1].modified && (o[n - 1] is Written)
            == written {
            1nat
        } else {
            0nat
        }
    }
}

/// Whether `b` is `a` after the closing of every file went on with the tabs
/// `t`, the prompt being `p`: the next unsaved file is asked about, or all
/// files are closed. Where `cleared` is set, the colours were dropped before.
pub open spec fn closes_all(
    a: App,
    t: TabsState,
    p: PromptState,
    cleared: bool,
    b: App,
) -> bool {
    let i = unsaved_from(t.editors, 0);
    &&& b == App {
        tabs: b.tabs,
        prompt: b.prompt,
        highlights: b.highlights,
        toast: b.toast,
        ..a
    }
    &&& b.highlights.pending == a.highlights.pending
    &&& if i >= 0 {
        &&& b.tabs@ == t.focused(i)
        &&& b.prompt@ == PromptState::asking(
            PromptKind::CloseUnsaved,
            path_or_none(t.editors[i]),
            Seq::empty(),
        )
        &&& b.highlights.done@.len() == 0
        &&& b.toast == a.toast
    } else if t.editors.len() == 0 {
        &&& b.tabs@ == t
        &&& b.prompt@ == p
        &&& b.toast == a.toast
        &&& if cleared {
            b.highlights.done@.len() == 0
        } else {
            b.highlights == a.highlights
        }
    } else {
        &&& b.tabs@ == t.all_dropped()
        &&& b.prompt@ == p
        &&& b.highlights.done@.len() == 0
        &&& b.tells("Closed all files"@, ToastKind::Info)
    }
}

impl App {
    /// Start opening `path`: a file that is open shows, one that is no text is
    /// refused, and any other is to be read.
    pub fn open_path(&mut self, path: &str) -> (r: OpenStep)
        requires
            old(self).wf(),
        ensures
            ({
                let i = tab_of(old(self).tabs@.editors, path@, 0);
                let name = name_or_none(path@);
                if i >= 0 {
                    &&& r == OpenStep::Shown
                    &&& final(self).dialogs@.len() == 0
                    &&& final(self).tabs@ == old(self).tabs@.focused(i).touched(path@)
                    &&& torn_down(
                        App { tabs: final(self).tabs, ..*old(self) },
                        *final(self),
                        old(self).dialogs@.to_set(),
                    )
                } else if binary_file(name) {
                    &&& r == OpenStep::Refused
                    &&& *final(self) == (App { toast: final(self).toast, ..*old(self) })
                    &&& final(self).tells(
                        "Can't open "@ + name + " \u{2014} not a text file"@,
                        ToastKind::Info,
                    )
                } else {
                    &&& r == OpenStep::Read
                    &&& *final(self) == *old(self)
                }
            }),
            final(self).wf(),
    {
        if let Some(i) = self.tabs.tab_with(path) {
            self.tabs.focus(i);
            self.tabs.touch_recent(path);
            self.close_all_dialogs();
            return OpenStep::Shown;
        }
        let name = match file_name(path) {
            Some(n) => n,
            None => {
                let n = String::new();
                assert(n@ =~= Seq::empty());
                n
            },
        };
        if is_binary(name.as_str()) {
            self.notify(
                between("Can't open ", name.as_str(), " \u{2014} not a text file"),
                ToastKind::Info,
            );
            return OpenStep::Refused;
        }
        OpenStep::Read
    }

    /// Finish opening `path` with what reading it gave: it gets a tab of its
    /// own and every dialog closes, or the failure is told.
    pub fn file_read(&mut self, path: String, outcome: ReadOutcome)
        requires
            old(self).wf(),
        ensures
            match outcome {
                ReadOutcome::Text { text, disk } => {
                    &&& final(self).dialogs@.len() == 0
                    &&& final(self).tabs@ == old(self).tabs@.opened(
                        fresh(Some(path@), text@, disk),
                        old(self).now,
                    ).touched(path@)
                    &&& final(self).status@ == "Opened "@ + path@
                    &&& torn_down(
                        App {
                            tabs: final(self).tabs,
                            status: final(self).status,
                            ..*old(self)
                        },
                        *final(self),
                        old(self).dialogs@.to_set(),
                    )
                },
                ReadOutcome::Failed(e) => {
                    &&& *final(self) == (App { status: final(self).status, ..*old(self) })
                    &&& final(self).status@ == "Could not open "@ + path@ + (": "@ + e@)
                },
            },
            final(self).wf(),
    {
        match outcome {
            ReadOutcome::Text { text, disk } => {
                let buf = Buffer::from_text(path.clone(), text.as_str(), disk);
                let now: u64 = self.now;
                self.tabs.add_tab(buf, now);
                let mut status = "Opened ".to_owned();
                status.append(path.as_str());
                self.status = status;
                self.tabs.touch_recent(path.as_str());
                self.close_all_dialogs();
            },
            ReadOutcome::Failed(e) => {
                let mut why = ": ".to_owned();
                why.append(e.as_str());
                self.status = between("Could not open ", path.as_str(), why.as_str());
            },
        }
    }

    /// Note what came of saving the file that is showing.
    pub fn save_active(&mut self, outcome: SaveOutcome)
        requires
            old(self).wf(),
        ensures
            match old(self).tabs@.active {
                Some(i) => match outcome {
                    SaveOutcome::Written(disk) => {
                        &&& *final(self) == (App {
                            tabs: final(self).tabs,
                            toast: final(self).toast,
                            ..*old(self)
                        })
                        &&& final(self).tabs@ == old(self).tabs@.saved(i, disk)
                        &&& final(self).tells("Saved"@, ToastKind::Success)
                    },
                    SaveOutcome::Failed(e) => {
                        &&& *final(self) == (App { toast: final(self).toast, ..*old(self) })
                        &&& final(self).tells("Save failed: "@ + e@, ToastKind::Error)
                    },
                },
                None => *final(self) == *old(self),
            },
            final(self).wf(),
    {
        if let Some(i) = self.tabs.active {
            match outcome {
                SaveOutcome::Written(disk) => {
                    self.tabs.mark_saved(i, disk);
                    self.notify("Saved".to_owned(), ToastKind::Success);
                },
                SaveOutcome::Failed(e) => self.save_failed(e),
            }
        }
    }

    /// Tell that a file could not be saved.
    fn save_failed(&mut self, e: String)
        ensures
            *final(self) == (App { toast: final(self).toast, ..*old(self) }),
            final(self).tells("Save failed: "@ + e@, ToastKind::Error),
    {
        let mut m = "Save failed: ".to_owned();
        m.append(e.as_str());
        self.notify(m, ToastKind::Error);
    }

    /// Note what came of saving every file with unsaved changes. There is one
    /// outcome for each tab.
    pub fn save_all(&mut self, outcomes: &Vec<SaveOutcome>)
        requires
            old(self).wf(),
            outcomes@.len() == old(self).tabs@.editors.len(),
        ensures
            ({
                let all = old(self).tabs@.editors;
                let n = all.len() as int;
                let saved = count_saves(all, outcomes@, true, n);
                let failed = count_saves(all, outcomes@, false, n);
                if n == 0 {
                    *final(self) == *old(self)
                } else {
                    &&& *final(self) == (App {
                        tabs: final(self).tabs,
                        toast: final(self).toast,
                        ..*old(self)
                    })
                    &&& final(self).tabs@ == (TabsState {
                        editors: after_saves(all, outcomes@),
                        ..old(self).tabs@
                    })
                    &&& if failed > 0 {
                        final(self).tells(
                            "Saved "@ + decimal(saved) + ", "@ + decimal(failed) + " failed"@,
                            ToastKind::Error,
                        )
                    } else if saved == 0 {
                        final(self).tells("All files already saved"@, ToastKind::Info)
                    } else {
                        final(self).tells(
                            "Saved "@ + decimal(saved) + " file(s)"@,
                            ToastKind::Success,
                        )
                    }
                }
            }),
            final(self).wf(),
    {
        if self.tabs.editors.len() == 0 {
            return;
        }
        let ghost s = self.tabs@;
        let ghost a = *self;
        let mut saved: usize = 0;
        let mut failed: usize = 0;
        let mut i: usize = 0;
        while i < self.tabs.editors.len()
            invariant
                i <= outcomes@.len(),
                outcomes.len() == s.editors.len(),
                self.wf(),
                *self == (App { tabs: self.tabs, ..a }),
                saved == count_saves(s.editors, outcomes@, true, i as int),
                failed == count_saves(s.editors, outcomes@, false, i as int),
                saved <= i,
                failed <= i,
                self.tabs@ == (TabsState { editors: self.tabs@.editors, ..s }),
                self.tabs@.editors.len() == s.editors.len(),
                forall|k: int|
                    0 <= k < i ==> #[trigger] self.tabs@.editors[k] == after_saves(
                        s.editors,
                        outcomes@,
                    )[k],
                forall|k: int|
                    i <= k < s.editors.len() ==> #[trigger] self.tabs@.editors[k] == s.editors[k],
            decreases self.tabs.editors.len() - i,
        {
            assert(self.tabs@.editors[i as int] == self.tabs.editors@[i as int]@);
            if self.tabs.editors[i].modified {
                match &outcomes[i] {
                    SaveOutcome::Written(disk) => {
                        self.tabs.mark_saved(i, *disk);
                        saved = saved + 1;
                    },
                    SaveOutcome::Failed(_) => {
                        failed = failed + 1;
                    },
                }
            }
            i = i + 1;
        }
        assert(self.tabs@.editors =~= after_saves(s.editors, outcomes@));
        if failed > 0 {
            let m = with_number("Saved ", saved, ", ");
            let m2 = with_number(m.as_str(), failed, " failed");
            self.notify(m2, ToastKind::Error);
        } else if saved == 0 {
            self.notify("All files already saved".to_owned(), ToastKind::Info);
        } else {
            self.notify(with_number("Saved ", saved, " file(s)"), ToastKind::Success);
        }
    }

    /// Close every file. The first one with unsaved changes is asked about.
    pub fn close_all(&mut self)
        requires
            old(self).wf(),
        ensures
            closes_all(*old(self), old(self).tabs@, old(self).prompt@, false, *final(self)),
            final(self).wf(),
    {
        if let Some(i) = self.tabs.first_unsaved() {
            self.tabs.focus(i);
            self.highlights.done = Vec::new();
            assert(self.tabs@.editors[i as int] == self.tabs.editors@[i as int]@);
            let target = match &self.tabs.editors[i].path {
                Some(p) => p.clone(),
                None => String::new(),
            };
            let input = String::new();
            assert(input@ =~= Seq::empty());
            assert(target@ =~= path_or_none(self.tabs@.editors[i as int]));
            self.prompt.open(PromptKind::CloseUnsaved, target, input);
            return;
        }
        if self.tabs.editors.len() == 0 {
            return;
        }
        self.tabs.drop_all();
        self.highlights.done = Vec::new();
        self.notify("Closed all files".to_owned(), ToastKind::Info);
    }

    /// Take the answer about the first file with unsaved changes while every
    /// file is closed: it is closed, once it was saved where that is wanted,
    /// and the closing goes on.
    pub fn close_unsaved_answer(&mut self, save: bool, outcome: SaveOutcome)
        requires
            old(self).wf(),
        ensures
            ({
                let s = old(self).tabs@;
                let i = unsaved_from(s.editors, 0);
                let show = match s.active {
                    Some(a) => a,
                    None => 0,
                };
                if i >= 0 && save && outcome is Failed {
                    &&& *final(self) == (App {
                        prompt: final(self).prompt,
                        toast: final(self).toast,
                        ..*old(self)
                    })
                    &&& final(self).prompt@ == PromptState::closed()
                    &&& final(self).tells("Save failed: "@ + outcome->Failed_0@, ToastKind::Error)
                } else {
                    let t = if i < 0 {
                        s
                    } else {
                        s.removed(i, show)
                    };
                    closes_all(*old(self), t, PromptState::closed(), i >= 0, *final(self))
                }
            }),
            final(self).wf(),
    {
        if let Some(i) = self.tabs.first_unsaved() {
            if save {
                if let SaveOutcome::Failed(e) = outcome {
                    self.prompt.close();
                    self.save_failed(e);
                    return;
                }
            }
            let show: usize = match self.tabs.active {
                Some(a) => a,
                None => 0,
            };
            self.tabs.remove_tab(i, show);
            self.highlights.done = Vec::new();
        }
        self.prompt.close();
        self.close_all();
    }

    /// Leave the remaining files open.
    pub fn cancel_close_all(&mut self)
        requires
            old(self).wf(),
        ensures
            keeps_all(*old(self), *final(self)),
            final(self).wf(),
    {
        self.prompt.close();
        self.notify("Close all cancelled".to_owned(), ToastKind::Info);
    }

    /// Close the tab that is showing. Unsaved changes are asked about.
    pub fn close_tab(&mut self)
        requires
            old(self).wf(),
        ensures
            closes_tab(*old(self), *final(self)),
            final(self).wf(),
    {
        if let Some(i) = self.tabs.active {
            assert(self.tabs@.editors[i as int] == self.tabs.editors@[i as int]@);
            if self.tabs.editors[i].modified {
                let target = match &self.tabs.editors[i].path {
                    Some(p) => p.clone(),
                    None => String::new(),
                };
                let input = String::new();
                assert(input@ =~= Seq::empty());
                assert(target@ =~= path_or_none(self.tabs@.editors[i as int]));
                self.prompt.open(PromptKind::CloseTab, target, input);
                return;
            }
            self.tabs.drop_tab(i);
            self.highlights.done = Vec::new();
        }
    }

    /// Take the answer about the unsaved changes of the tab to be closed. The
    /// tab stays where saving it failed.
    pub fn close_tab_answer(&mut self, save: bool, outcome: SaveOutcome)
        requires
            old(self).wf(),
        ensures
            final(self).prompt@ == PromptState::closed(),
            match old(self).tabs@.active {
                Some(i) => if save && outcome is Failed {
                    &&& *final(self) == (App {
                        prompt: final(self).prompt,
                        toast: final(self).toast,
                        ..*old(self)
                    })
                    &&& final(self).tells("Save failed: "@ + outcome->Failed_0@, ToastKind::Error)
                } else {
                    &&& *final(self) == (App {
                        prompt: final(self).prompt,
                        tabs: final(self).tabs,
                        highlights: final(self).highlights,
                        ..*old(self)
                    })
                    &&& final(self).tabs@ == old(self).tabs@.dropped(i)
                    &&& final(self).highlights.done@.len() == 0
                    &&& final(self).highlights.pending == old(self).highlights.pending
                },
                None => *final(self) == (App { prompt: final(self).prompt, ..*old(self) }),
            },
            final(self).wf(),
    {
        self.prompt.close();
        if let Some(i) = self.tabs.active {
            if save {
                if let SaveOutcome::Failed(e) = outcome {
                    self.save_failed(e);
                    return;
                }
            }
            self.tabs.drop_tab(i);
            self.highlights.done = Vec::new();
        }
    }

    /// The file whose tab was closed last, to be opened again; `exists` says of
    /// each remembered file whether it is still there. Files that are gone are
    /// forgotten.
    pub fn reopen_closed_tab(&mut self, exists: &Vec<bool>) -> (r: Option<String>)
        requires
            old(self).wf(),
            exists@.len() == old(self).tabs@.closed.len(),
        ensures
            ({
                let k = last_true(exists@, exists@.len() as int);
                if k >= 0 {
                    &&& opt_text(r) == Some(old(self).tabs@.closed[k])
                    &&& *final(self) == (App { tabs: final(self).tabs, ..*old(self) })
                    &&& final(self).tabs@ == (TabsState {
                        closed: old(self).tabs@.closed.take(k),
                        ..old(self).tabs@
                    })
                } else {
                    &&& r is None
                    &&& *final(self) == (App {
                        tabs: final(self).tabs,
                        toast: final(self).toast,
                        ..*old(self)
                    })
                    &&& final(self).tabs@ == (TabsState {
                        closed: Seq::empty(),
                        ..old(self).tabs@
                    })
                    &&& final(self).tells("No closed tab to reopen"@, ToastKind::Info)
                }
            }),
            final(self).wf(),
    {
        let ghost a = *self;
        let ghost s = self.tabs@;
        assert(s.closed.take(s.closed.len() as int) =~= s.closed);
        while self.tabs.closed.len() > 0
            invariant
                self.wf(),
                exists@.len() == s.closed.len(),
                self.tabs@.closed.len() <= s.closed.len(),
                *self == (App { tabs: self.tabs, ..a }),
                a == *old(self),
                a.tabs@ == s,
                self.tabs@ == (TabsState {
                    closed: s.closed.take(self.tabs@.closed.len() as int),
                    ..s
                }),
                last_true(exists@, exists@.len() as int) == last_true(
                    exists@,
                    self.tabs@.closed.len() as int,
                ),
            decreases self.tabs.closed.len(),
        {
            let k: usize = self.tabs.closed.len() - 1;
            let p = self.tabs.take_closed();
            assert(s.closed.take(k + 1).drop_last() =~= s.closed.take(k as int));
            assert(s.closed.take(k + 1).last() == s.closed[k as int]);
            if exists[k] {
                return p;
            }
        }
        assert(s.closed.take(0) =~= Seq::empty());
        self.notify("No closed tab to reopen".to_owned(), ToastKind::Info);
        None
    }

    /// The open folder, its files that are open and the one that is showing, to
    /// be remembered for the next time.
    pub fn save_session(&mut self) -> (r: Option<(String, Vec<String>, usize)>)
        requires
            old(self).wf(),
        ensures
            *final(self) == (App { tabs: final(self).tabs, ..*old(self) }),
            final(self).tabs@ == (TabsState { session_dirty: false, ..old(self).tabs@ }),
            match (r, old(self).root) {
                (Some((root, files, active)), Some(p)) => {
                    &&& root@ == p@
                    &&& texts(files@) == paths_of(old(self).tabs@.editors)
                    &&& active == match old(self).tabs@.active {
                        Some(i) => i,
                        None => 0,
                    }
                },
                (None, None) => true,
                _ => false,
            },
            final(self).wf(),
    {
        self.tabs.session_dirty = false;
        match &self.root {
            Some(p) => {
                let active: usize = match self.tabs.active {
                    Some(i) => i,
                    None => 0,
                };
                Some((p.clone(), self.tabs.open_paths(), active))
            },
            None => None,
        }
    }

    /// Show the tab that was showing the last time, once its files are open
    /// again.
    pub fn restore_session(&mut self, active: usize)
        requires
            old(self).wf(),
        ensures
            *final(self) == (App { tabs: final(self).tabs, ..*old(self) }),
            final(self).tabs@ == (TabsState {
                active: if old(self).tabs@.editors.len() == 0 {
                    None
                } else if active < old(self).tabs@.editors.len() {
                    Some(active as int)
                } else {
                    Some(old(self).tabs@.editors.len() - 1)
                },
                session_dirty: false,
                ..old(self).tabs@
            }),
            final(self).wf(),
    {
        self.tabs.settle(active);
    }
}

/// The last of the first `n` places that is set, or -1.
pub open spec fn last_true(v: Seq<bool>, n: int) -> int
    decreases n,
{
    if n <= 0 {
        -1
    } else if v[n - 1] {
        n - 1
    } else {
        last_true(v, n - 1)
    }
}

/// Closing every file leaves none open where there is nothing unsaved, and
/// asks about a file with unsaved changes otherwise.
pub proof fn law_nothing_unsaved_is_closed_unasked(a: App, b: App)
    requires
        a.wf(),
        closes_all(a, a.tabs@, a.prompt@, false, b),
    ensures
        a.tabs@.editors.len() > 0 && b.tabs@.editors.len() == 0 ==> forall|i: int|
            0 <= i < a.tabs@.editors.len() ==> !(#[trigger] a.tabs@.editors[i]).modified,
        b.tabs@.editors.len() > 0 ==> b.tabs@.editors == a.tabs@.editors && (b.shown() matches Some(
            f,
        ) && f.modified),
{
    lemma_unsaved_from(a.tabs@.editors, 0);
}

/// What the search for an unsaved file finds.
pub proof fn lemma_unsaved_from(editors: Seq<BufferState>, i: int)
    requires
        0 <= i,
    ensures
        ({
            let k = unsaved_from(editors, i);
            if k < 0 {
                forall|j: int| i <= j < editors.len() ==> !(#[trigger] editors[j]).modified
            } else {
                i <= k < editors.len() && editors[k].modified
            }
        }),
    decreases editors.len() - i,
{
    if i < editors.len() && !editors[i].modified {
        lemma_unsaved_from(editors, i + 1);
    }
}

/// Whether calling off the closing of all tabs makes `b` of `a`.
pub open spec fn keeps_all(a: App, b: App) -> bool {
    &&& b == (App {
        prompt: b.prompt,
        toast: b.toast,
        ..a
    })
    &&& b.prompt@ == PromptState::closed()
    &&& b.tells("Close all cancelled"@, ToastKind::Info)
}

/// Whether closing the tab that is showing makes `b` of `a`.
pub open spec fn closes_tab(a: App, b: App) -> bool {
    match a.tabs@.active {
        Some(i) => if a.tabs@.editors[i].modified {
            &&& b == (App { prompt: b.prompt, ..a })
            &&& b.prompt@ == PromptState::asking(
                PromptKind::CloseTab,
                path_or_none(a.tabs@.editors[i]),
                Seq::empty(),
            )
        } else {
            &&& b == (App {
                tabs: b.tabs,
                highlights: b.highlights,
                ..a
            })
            &&& b.tabs@ == a.tabs@.dropped(i)
            &&& b.highlights.done@.len() == 0
            &&& b.highlights.pending == a.highlights.pending
        },
        None => b == a,
    }
}

} // verus!
