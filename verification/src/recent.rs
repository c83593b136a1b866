//! The dialog of recent folders: a list with a cursor and check marks.

use crate::filedialog::texts;
use crate::steps::{lemma_picked_len, lemma_picked_next, lemma_picked_split, picked, step, stepped};
use crate::paths::{has_path, holds_path};
use vstd::prelude::*;
use vstd::string::*;

verus! {

/// The dialog of recent folders, the newest first.
pub struct RecentDialog {
    pub open: bool,
    pub folders: Vec<String>,
    pub cursor: usize,
    /// The rows that are checked.
    pub checked: Vec<bool>,
    /// The rows whose folder is open in a window.
    pub disabled: Vec<bool>,
}

/// The dialog as a mathematical value.
#[verifier::ext_equal]
pub struct RecentState {
    pub open: bool,
    pub folders: Seq<Seq<char>>,
    pub cursor: int,
    pub checked: Seq<bool>,
    pub disabled: Seq<bool>,
}

impl View for RecentDialog {
    type V = RecentState;

    open spec fn view(&self) -> RecentState {
        RecentState {
            open: self.open,
            folders: texts(self.folders@),
            cursor: self.cursor as int,
            checked: self.checked@,
            disabled: self.disabled@,
        }
    }
}

/// What a request to delete rows comes to.
#[derive(Debug)]
pub enum Deletion {
    /// There is no row.
    Empty,
    /// Every folder that was asked for is open.
    AllOpen,
    /// These are gone, and so many were passed over because they are open.
    Removed { folders: Vec<String>, skipped: usize },
}

/// What a request to open rows comes to.
#[derive(Debug)]
pub enum Opening {
    /// There is no row.
    Empty,
    /// The folder under the cursor is open already.
    AlreadyOpen,
    Folders(Vec<String>),
}

impl RecentState {
    /// Each row has a check mark and a flag, and the cursor is on a row.
    pub open spec fn wf(self) -> bool {
        &&& self.checked.len() == self.folders.len()
        &&& self.disabled.len() == self.folders.len()
        &&& self.cursor >= 0
        &&& self.folders.len() > 0 ==> self.cursor < self.folders.len()
    }

    /// No row at all.
    pub open spec fn empty() -> RecentState {
        RecentState {
            open: false,
            folders: Seq::empty(),
            cursor: 0,
            checked: Seq::empty(),
            disabled: Seq::empty(),
        }
    }

    /// The rows that a request covers: those that are checked, or the cursor's
    /// where none is.
    pub open spec fn asked(self, i: int) -> bool {
        if self.checked.contains(true) {
            self.checked[i]
        } else {
            i == self.cursor
        }
    }

    /// The rows that a deletion takes.
    pub open spec fn doomed(self) -> spec_fn(int) -> bool {
        |i: int| self.asked(i) && !self.disabled[i]
    }

    /// The rows that a deletion passes over because they are open.
    pub open spec fn spared(self) -> spec_fn(int) -> bool {
        |i: int| self.asked(i) && self.disabled[i]
    }

    /// The rows that stay.
    pub open spec fn staying(self) -> spec_fn(int) -> bool {
        |i: int| !(self.asked(i) && !self.disabled[i])
    }

    /// Without the rows that a deletion takes.
    pub open spec fn without_doomed(self) -> RecentState {
        let folders = picked(self.folders, self.staying());
        RecentState {
            folders,
            checked: picked(self.checked, self.staying()),
            disabled: picked(self.disabled, self.staying()),
            cursor: if self.cursor < folders.len() {
                self.cursor
            } else if folders.len() > 0 {
                folders.len() - 1
            } else {
                0
            },
            ..self
        }
    }

    /// The rows that are checked and not open yet.
    pub open spec fn ready(self) -> spec_fn(int) -> bool {
        |i: int| self.checked[i] && !self.disabled[i]
    }
}

impl Default for RecentDialog {
    fn default() -> (r: RecentDialog)
        ensures
            r@ == RecentState::empty(),
    {
        RecentDialog {
            open: false,
            folders: Vec::new(),
            cursor: 0,
            checked: Vec::new(),
            disabled: Vec::new(),
        }
    }
}

impl RecentDialog {
    /// Show `folders`. `resolved` holds the same folders with every link
    /// followed, and `open` those that windows have open.
    pub fn fill(&mut self, folders: Vec<String>, resolved: &Vec<String>, open: &Vec<String>)
        requires
            resolved@.len() == folders@.len(),
        ensures
            final(self)@ == (RecentState {
                open: true,
                folders: texts(folders@),
                cursor: 0,
                checked: Seq::new(folders@.len(), |i: int| false),
                disabled: Seq::new(
                    folders@.len(),
                    |i: int| holds_path(texts(open@), texts(resolved@)[i]),
                ),
            }),
            final(self)@.wf(),
    {
        let mut checked: Vec<bool> = Vec::new();
        let mut disabled: Vec<bool> = Vec::new();
        let mut i: usize = 0;
        while i < folders.len()
            invariant
                i <= folders@.len(),
                resolved@.len() == folders@.len(),
                checked@ == Seq::new(i as nat, |k: int| false),
                disabled@.len() == i,
                forall|k: int|
                    0 <= k < i ==> disabled@[k] == holds_path(texts(open@), texts(resolved@)[k]),
            decreases folders.len() - i,
        {
            disabled.push(has_path(open, resolved[i].as_str()));
            checked.push(false);
            i = i + 1;
            assert(checked@ =~= Seq::new(i as nat, |k: int| false));
        }
        self.folders = folders;
        self.cursor = 0;
        self.checked = checked;
        self.disabled = disabled;
        self.open = true;
    }

    /// Move the cursor, going round the ends of the list.
    pub fn recent_move(&mut self, delta: i32)
        requires
            old(self)@.wf(),
        ensures
            final(self)@ == (RecentState {
                cursor: if old(self)@.folders.len() == 0 {
                    old(self)@.cursor
                } else {
                    stepped(
                        old(self)@.cursor,
                        delta as int,
                        old(self)@.folders.len() as int,
                    )
                },
                ..old(self)@
            }),
            final(self)@.wf(),
    {
        let n: usize = self.folders.len();
        if n == 0 {
            return;
        }
        self.cursor = step(self.cursor, delta, n);
    }

    /// Check or uncheck the row under the cursor, unless its folder is open in
    /// a window; says whether it is not.
    pub fn recent_toggle(&mut self) -> (r: bool)
        requires
            old(self)@.wf(),
        ensures
            ({
                let s = old(self)@;
                let open = s.folders.len() > 0 && s.disabled[s.cursor];
                &&& r == !open
                &&& final(self)@ == if s.folders.len() == 0 || open {
                    s
                } else {
                    RecentState { checked: s.checked.update(s.cursor, !s.checked[s.cursor]), ..s }
                }
            }),
            final(self)@.wf(),
    {
        if self.cursor >= self.folders.len() {
            return true;
        }
        if self.disabled[self.cursor] {
            return false;
        }
        let now: bool = self.checked[self.cursor];
        self.checked.set(self.cursor, !now);
        true
    }

    fn any_checked(&self) -> (r: bool)
        ensures
            r == self.checked@.contains(true),
    {
        let mut i: usize = 0;
        while i < self.checked.len()
            invariant
                i <= self.checked@.len(),
                forall|k: int| 0 <= k < i ==> !self.checked@[k],
            decreases self.checked.len() - i,
        {
            if self.checked[i] {
                assert(self.checked@[i as int]);
                return true;
            }
            i = i + 1;
        }
        false
    }

    /// Take the checked folders, or the one under the cursor where none is
    /// checked, out of the list. A folder that is open stays.
    pub fn recent_delete_selected(&mut self) -> (r: Deletion)
        requires
            old(self)@.wf(),
        ensures
            ({
                let s = old(self)@;
                let gone = picked(s.folders, s.doomed());
                match r {
                    Deletion::Empty => s.folders.len() == 0 && final(self)@ == s,
                    Deletion::AllOpen => s.folders.len() > 0 && gone.len() == 0 && final(self)@
                        == s,
                    Deletion::Removed { folders, skipped } => s.folders.len() > 0 && gone.len() > 0
                        && texts(folders@) == gone && skipped == picked(
                        s.folders,
                        s.spared(),
                    ).len() && final(self)@ == s.without_doomed(),
                }
            }),
            final(self)@.wf(),
    {
        let n: usize = self.folders.len();
        if n == 0 {
            return Deletion::Empty;
        }
        let ghost s = self@;
        let checked_some = self.any_checked();
        let mut gone: Vec<String> = Vec::new();
        let mut folders: Vec<String> = Vec::new();
        let mut checked: Vec<bool> = Vec::new();
        let mut disabled: Vec<bool> = Vec::new();
        let mut skipped: usize = 0;
        let mut i: usize = 0;
        assert(texts(gone@) =~= picked(s.folders.take(0), s.doomed()));
        assert(texts(folders@) =~= picked(s.folders.take(0), s.staying()));
        assert(checked@ =~= picked(s.checked.take(0), s.staying()));
        assert(disabled@ =~= picked(s.disabled.take(0), s.staying()));
        while i < n
            invariant
                i <= n,
                n == s.folders.len(),
                self@ == s,
                s.wf(),
                checked_some == s.checked.contains(true),
                texts(gone@) == picked(s.folders.take(i as int), s.doomed()),
                texts(folders@) == picked(s.folders.take(i as int), s.staying()),
                checked@ == picked(s.checked.take(i as int), s.staying()),
                disabled@ == picked(s.disabled.take(i as int), s.staying()),
                skipped == picked(s.folders.take(i as int), s.spared()).len(),
                skipped <= i,
            decreases n - i,
        {
            let asked = if checked_some {
                self.checked[i]
            } else {
                i == self.cursor
            };
            let open: bool = self.disabled[i];
            proof {
                lemma_picked_next(s.folders, s.doomed(), i as int);
                lemma_picked_next(s.folders, s.staying(), i as int);
                lemma_picked_next(s.folders, s.spared(), i as int);
                lemma_picked_next(s.checked, s.staying(), i as int);
                lemma_picked_next(s.disabled, s.staying(), i as int);
            }
            if asked && !open {
                gone.push(self.folders[i].clone());
                assert(texts(gone@) =~= picked(s.folders.take(i as int), s.doomed()).push(
                    s.folders[i as int],
                ));
            } else {
                if asked {
                    skipped = skipped + 1;
                }
                folders.push(self.folders[i].clone());
                checked.push(self.checked[i]);
                disabled.push(open);
                assert(texts(folders@) =~= picked(s.folders.take(i as int), s.staying()).push(
                    s.folders[i as int],
                ));
            }
            i = i + 1;
        }
        proof {
            assert(s.folders.take(n as int) =~= s.folders);
            assert(s.checked.take(n as int) =~= s.checked);
            assert(s.disabled.take(n as int) =~= s.disabled);
            lemma_picked_len(s.folders, s.checked, s.staying());
            lemma_picked_len(s.folders, s.disabled, s.staying());
        }
        if gone.len() == 0 {
            return Deletion::AllOpen;
        }
        if self.cursor >= folders.len() {
            self.cursor = if folders.len() > 0 {
                folders.len() - 1
            } else {
                0
            };
        }
        self.folders = folders;
        self.checked = checked;
        self.disabled = disabled;
        Deletion::Removed { folders: gone, skipped }
    }

    /// The folders that Enter opens: the checked ones that no window has open,
    /// or the one under the cursor where there is none.
    pub fn recent_open_selected(&self) -> (r: Opening)
        requires
            self@.wf(),
        ensures
            ({
                let s = self@;
                let ready = picked(s.folders, s.ready());
                match r {
                    Opening::Empty => s.folders.len() == 0,
                    Opening::AlreadyOpen => s.folders.len() > 0 && ready.len() == 0
                        && s.disabled[s.cursor],
                    Opening::Folders(f) => s.folders.len() > 0 && if ready.len() > 0 {
                        texts(f@) == ready
                    } else {
                        !s.disabled[s.cursor] && texts(f@) == seq![s.folders[s.cursor]]
                    },
                }
            }),
    {
        let n: usize = self.folders.len();
        let ghost s = self@;
        let mut out: Vec<String> = Vec::new();
        let mut i: usize = 0;
        assert(texts(out@) =~= picked(s.folders.take(0), s.ready()));
        while i < n
            invariant
                i <= n,
                n == s.folders.len(),
                self@ == s,
                s.wf(),
                texts(out@) == picked(s.folders.take(i as int), s.ready()),
            decreases n - i,
        {
            proof {
                lemma_picked_next(s.folders, s.ready(), i as int);
            }
            if self.checked[i] && !self.disabled[i] {
                out.push(self.folders[i].clone());
                assert(texts(out@) =~= picked(s.folders.take(i as int), s.ready()).push(
                    s.folders[i as int],
                ));
            }
            i = i + 1;
        }
        assert(s.folders.take(n as int) =~= s.folders);
        if n == 0 {
            return Opening::Empty;
        }
        if out.len() == 0 {
            if self.disabled[self.cursor] {
                return Opening::AlreadyOpen;
            }
            out.push(self.folders[self.cursor].clone());
            assert(texts(out@) =~= seq![s.folders[s.cursor]]);
        }
        Opening::Folders(out)
    }
}

/// A deletion takes no folder that is open, and leaves every row that it does
/// not take.
pub proof fn law_open_folders_stay(s: RecentState)
    requires
        s.wf(),
    ensures
        picked(s.folders, s.doomed()).len() + picked(s.folders, s.staying()).len()
            == s.folders.len(),
        forall|i: int|
            0 <= i < s.folders.len() && s.disabled[i] ==> #[trigger] s.staying()(i),
{
    assert forall|i: int| 0 <= i < s.folders.len() implies s.doomed()(i) == !#[trigger] s.staying()(
        i,
    ) by {}
    lemma_picked_split(s.folders, s.doomed(), s.staying());
}

/// A deletion is about the ticked folders, or about the one under the cursor where
/// none is ticked; of these it takes those that are not open. The ones that stay
/// keep their order, their ticks and their marks.
pub proof fn law_a_deletion_takes_the_ticked_folders(s: RecentState, i: int)
    requires
        s.wf(),
        0 <= i < s.folders.len(),
    ensures
        ({
            let ticked = exists|k: int| 0 <= k < s.checked.len() && #[trigger] s.checked[k];
            let goes = !s.disabled[i] && if ticked {
                s.checked[i]
            } else {
                i == s.cursor
            };
            let gone = picked(s.folders, s.doomed());
            let r = s.without_doomed();
            let g = picked(s.folders.take(i), s.doomed()).len() as int;
            let k = picked(s.folders.take(i), s.staying()).len() as int;
            &&& goes ==> g < gone.len() && gone[g] == s.folders[i]
            &&& !goes ==> k < r.folders.len() && r.folders[k] == s.folders[i]
            &&& gone.len() + r.folders.len() == s.folders.len()
        }),
{
    law_open_folders_stay(s);
    crate::steps::law_picking_keeps_the_order(s.folders, s.doomed());
    crate::steps::law_picking_keeps_the_order(s.folders, s.staying());
    if s.checked.contains(true) {
        let k = choose|k: int| 0 <= k < s.checked.len() && s.checked[k] == true;
        assert(s.checked[k]);
    }
    if exists|k: int| 0 <= k < s.checked.len() && #[trigger] s.checked[k] {
        let k = choose|k: int| 0 <= k < s.checked.len() && #[trigger] s.checked[k];
        assert(s.checked[k] == true);
    }
    if s.doomed()(i) {
        assert(!s.staying()(i));
    } else {
        assert(s.staying()(i));
    }
}

} // verus!
