//! Files that change on disk while they are open.

use crate::app::files::{path_or_none, ReadOutcome};
use crate::app::quitting::buffer_name;
use crate::app::App;
use crate::buffer::state::{least, next_revision, BufferState, DiskMeta};
use crate::buffer::DiskStatus;
use crate::clock::{Throttle, FILE_CHECK};
use crate::lines::line_total;
use crate::prompt::{PromptKind, PromptState};
use crate::tabs::{lemma_with_editor, tab_of, TabsState};
use crate::text::between;
use crate::toast::ToastKind;
use vstd::prelude::*;
use vstd::string::*;

verus! {

/// What was seen of a file on disk: what the disk says of it, and what reading
/// it gave where it was read.
pub struct Seen {
    pub meta: Option<DiskMeta>,
    pub read: Option<ReadOutcome>,
}

/// How the file of `b`, of which the disk says `meta`, compares to what was
/// last read or written.
pub open spec fn status_of(b: BufferState, meta: Option<DiskMeta>) -> DiskStatus {
    if b.path is None || b.disk is None {
        DiskStatus::Unchanged
    } else {
        match meta {
            Some(m) => if m == b.disk->0 {
                DiskStatus::Unchanged
            } else {
                DiskStatus::Modified
            },
            None => DiskStatus::Deleted,
        }
    }
}

/// `b` with what is on disk in place of its text.
pub open spec fn reloaded(b: BufferState, text: Seq<char>, disk: Option<DiskMeta>) -> BufferState {
    BufferState {
        text,
        saved: text,
        cursor: least(b.cursor, text.len() as int),
        anchor: None,
        carets: Seq::empty(),
        scroll_row: least(b.scroll_row, line_total(text) - 1),
        modified: false,
        undo: Seq::empty(),
        redo: Seq::empty(),
        last_kind: None,
        last_edit_cursor: None,
        revision: next_revision(b.revision),
        disk,
        ..b
    }
}

/// How far the open files have been held against the disk: the files, what is
/// to be told, and the file to be asked about.
#[verifier::ext_equal]
pub struct Checked {
    pub editors: Seq<BufferState>,
    pub told: Option<(Seq<char>, ToastKind)>,
    pub asked: Option<int>,
}

/// One file held against the disk. Unsaved edits are never thrown away: the
/// file is asked about.
pub open spec fn checked_one(c: Checked, seen: Seen, i: int) -> Checked {
    let b = c.editors[i];
    match status_of(b, seen.meta) {
        DiskStatus::Unchanged => c,
        DiskStatus::Deleted => Checked {
            editors: c.editors.update(i, BufferState { modified: true, disk: None, ..b }),
            told: Some((buffer_name(b) + " was deleted on disk"@, ToastKind::Error)),
            ..c
        },
        DiskStatus::Modified => if b.modified {
            Checked { asked: Some(i), ..c }
        } else {
            match seen.read {
                Some(ReadOutcome::Text { text, disk }) => Checked {
                    editors: c.editors.update(i, reloaded(b, text@, disk)),
                    told: Some(
                        (
                            "Reloaded "@ + buffer_name(b) + " (changed on disk)"@,
                            ToastKind::Info,
                        ),
                    ),
                    ..c
                },
                Some(ReadOutcome::Failed(e)) => Checked {
                    told: Some(
                        (
                            "Couldn't reload "@ + buffer_name(b) + ": "@ + e@,
                            ToastKind::Error,
                        ),
                    ),
                    ..c
                },
                None => c,
            }
        },
    }
}

/// The files from `i` on held against the disk, up to one that is asked about.
pub open spec fn checked_from(c: Checked, seen: Seq<Seen>, i: int) -> Checked
    decreases seen.len() - i,
{
    if i < 0 || i >= seen.len() || c.asked is Some {
        c
    } else {
        checked_from(checked_one(c, seen[i], i), seen, i + 1)
    }
}

/// Whether `b` is `a` after the open files were held against the disk, with the
/// result `c`.
pub open spec fn notes(a: App, c: Checked, b: App) -> bool {
    &&& b == App {
        tabs: b.tabs,
        toast: b.toast,
        prompt: b.prompt,
        ..a
    }
    &&& b.tabs@ == TabsState { editors: c.editors, ..a.tabs@ }
    &&& match c.told {
        Some((m, k)) => b.tells(m, k),
        None => b.toast == a.toast,
    }
    &&& match c.asked {
        Some(i) => b.prompt@ == PromptState::asking(
            PromptKind::ExternalChange,
            path_or_none(c.editors[i]),
            Seq::empty(),
        ),
        None => b.prompt == a.prompt,
    }
}

impl App {
    /// Whether the open files are to be held against the disk now: every so
    /// often, and not while something is asked.
    pub fn files_due(&mut self) -> (r: bool)
        requires
            old(self).wf(),
        ensures
            r == (!old(self).prompt.active && old(self).file_check.due(old(self).now, FILE_CHECK)),
            *final(self) == (App {
                file_check: if r {
                    Throttle { last: Some(old(self).now) }
                } else {
                    old(self).file_check
                },
                ..*old(self)
            }),
            final(self).wf(),
    {
        if self.prompt.active {
            return false;
        }
        let now: u64 = self.now;
        self.file_check.poll(now, FILE_CHECK)
    }

    /// Have the open files held against the disk at the next occasion.
    pub fn recheck_files_soon(&mut self)
        requires
            old(self).wf(),
        ensures
            *final(self) == (App { file_check: Throttle { last: None }, ..*old(self) }),
            final(self).wf(),
    {
        self.file_check.soon();
    }

    /// Whether the file of the tab `i` changed on disk and is to be read.
    pub fn wants_reload(&self, i: usize, meta: Option<DiskMeta>) -> (r: bool)
        requires
            i < self.tabs@.editors.len(),
        ensures
            r == (status_of(self.tabs@.editors[i as int], meta) == DiskStatus::Modified
                && !self.tabs@.editors[i as int].modified),
    {
        assert(self.tabs@.editors[i as int] == self.tabs.editors@[i as int]@);
        self.tabs.editors[i].disk_status(meta) == DiskStatus::Modified
            && !self.tabs.editors[i].modified
    }

    /// Tell something between two texts.
    fn tell(&mut self, before: &str, text: &str, behind: &str, kind: ToastKind)
        ensures
            *final(self) == (App { toast: final(self).toast, ..*old(self) }),
            final(self).tells(before@ + text@ + behind@, kind),
    {
        self.notify(between(before, text, behind), kind);
    }

    /// Hold one file against the disk.
    fn check_file(&mut self, i: usize, seen: &Seen)
        requires
            old(self).wf(),
            i < old(self).tabs@.editors.len(),
        ensures
            notes(
                *old(self),
                checked_one(
                    Checked { editors: old(self).tabs@.editors, told: None, asked: None },
                    *seen,
                    i as int,
                ),
                *final(self),
            ),
            final(self).wf(),
    {
        let ghost s = self.tabs@;
        let ghost b0 = s.editors[i as int];
        assert(b0 == self.tabs.editors@[i as int]@);
        let status = self.tabs.editors[i].disk_status(seen.meta);
        if status == DiskStatus::Unchanged {
            return;
        }
        let name = self.tabs.editors[i].name();
        if status == DiskStatus::Deleted {
            let b = &mut self.tabs.editors[i];
            b.modified = true;
            b.forget_disk();
            let ghost after = self.tabs.editors@[i as int]@;
            assert(self.tabs@ =~= s.with_editor(i as int, after));
            proof {
                lemma_with_editor(s, i as int, after);
            }
            self.tell("", name.as_str(), " was deleted on disk", ToastKind::Error);
            proof {
                reveal_strlit("");
                assert(""@ + name@ + " was deleted on disk"@ =~= name@ + " was deleted on disk"@);
            }
            return;
        }
        if self.tabs.editors[i].modified {
            let target = match &self.tabs.editors[i].path {
                Some(p) => p.clone(),
                None => String::new(),
            };
            let input = String::new();
            assert(input@ =~= Seq::empty());
            assert(target@ =~= path_or_none(b0));
            self.prompt.open(PromptKind::ExternalChange, target, input);
            return;
        }
        match &seen.read {
            Some(ReadOutcome::Text { text, disk }) => {
                let b = &mut self.tabs.editors[i];
                b.reload_from_disk(text.as_str(), *disk);
                let ghost after = self.tabs.editors@[i as int]@;
                assert(self.tabs@ =~= s.with_editor(i as int, after));
                proof {
                    lemma_with_editor(s, i as int, after);
                }
                self.tell("Reloaded ", name.as_str(), " (changed on disk)", ToastKind::Info);
            },
            Some(ReadOutcome::Failed(e)) => {
                let head = between("Couldn't reload ", name.as_str(), ": ");
                let mut m = head;
                m.append(e.as_str());
                self.notify(m, ToastKind::Error);
            },
            None => {},
        }
    }

    /// Hold the open files against the disk: `seen` has one entry for each tab.
    /// A file without unsaved edits takes what is on disk, one that is gone
    /// counts as unsaved, and the first one with unsaved edits is asked about.
    pub fn poll_file_changes(&mut self, seen: &Vec<Seen>)
        requires
            old(self).wf(),
            seen@.len() == old(self).tabs@.editors.len(),
        ensures
            notes(
                *old(self),
                checked_from(
                    Checked { editors: old(self).tabs@.editors, told: None, asked: None },
                    seen@,
                    0,
                ),
                *final(self),
            ),
            final(self).wf(),
    {
        let ghost a = *self;
        let ghost start = Checked { editors: a.tabs@.editors, told: None, asked: None };
        let ghost mut c = start;
        let mut i: usize = 0;
        let mut asked: bool = false;
        assert(notes(a, c, *self));
        while i < seen.len() && !asked
            invariant
                self.wf(),
                i <= seen@.len(),
                seen@.len() == a.tabs@.editors.len(),
                c.editors.len() == a.tabs@.editors.len(),
                asked == (c.asked is Some),
                notes(a, c, *self),
                checked_from(start, seen@, 0) == checked_from(c, seen@, i as int),
            decreases seen.len() - i,
        {
            let ghost mid = *self;
            let modified = self.tabs.editors[i].modified;
            assert(self.tabs@.editors[i as int] == self.tabs.editors@[i as int]@);
            let conflict = self.tabs.editors[i].disk_status(seen[i].meta) == DiskStatus::Modified
                && modified;
            self.check_file(i, &seen[i]);
            proof {
                lemma_notes(a, c, mid, seen@[i as int], i as int, *self);
                c = checked_one(c, seen@[i as int], i as int);
            }
            asked = conflict;
            i = i + 1;
        }
    }

    /// Take the answer about a file with unsaved edits that changed on disk:
    /// what is on disk, or the edits.
    pub fn external_change_answer(
        &mut self,
        reload: bool,
        read: ReadOutcome,
        meta: Option<DiskMeta>,
    )
        requires
            old(self).wf(),
        ensures
            final(self).prompt@ == PromptState::closed(),
            ({
                let i = tab_of(old(self).tabs@.editors, old(self).prompt@.target, 0);
                let b = old(self).tabs@.editors[i];
                if i < 0 {
                    *final(self) == (App { prompt: final(self).prompt, ..*old(self) })
                } else if !reload {
                    &&& *final(self) == (App {
                        prompt: final(self).prompt,
                        tabs: final(self).tabs,
                        ..*old(self)
                    })
                    &&& final(self).tabs@ == old(self).tabs@.with_editor(
                        i,
                        BufferState { disk: meta, ..b },
                    )
                } else {
                    &&& *final(self) == (App {
                        prompt: final(self).prompt,
                        tabs: final(self).tabs,
                        toast: final(self).toast,
                        ..*old(self)
                    })
                    &&& match read {
                        ReadOutcome::Text { text, disk } => {
                            &&& final(self).tabs@ == old(self).tabs@.with_editor(
                                i,
                                reloaded(b, text@, disk),
                            )
                            &&& final(self).tells("Reloaded "@ + buffer_name(b), ToastKind::Info)
                        },
                        ReadOutcome::Failed(e) => {
                            &&& final(self).tabs@ == old(self).tabs@
                            &&& final(self).tells("Couldn't reload: "@ + e@, ToastKind::Error)
                        },
                    }
                }
            }),
            final(self).wf(),
    {
        let path = self.prompt.target.clone();
        self.prompt.close();
        let ghost s = self.tabs@;
        let i = match self.tabs.tab_with(path.as_str()) {
            Some(i) => i,
            None => return,
        };
        assert(s.editors[i as int] == self.tabs.editors@[i as int]@);
        if !reload {
            let b = &mut self.tabs.editors[i];
            b.rebaseline_disk(meta);
            let ghost after = self.tabs.editors@[i as int]@;
            assert(self.tabs@ =~= s.with_editor(i as int, after));
            proof {
                lemma_with_editor(s, i as int, after);
            }
            return;
        }
        match read {
            ReadOutcome::Text { text, disk } => {
                let name = self.tabs.editors[i].name();
                let b = &mut self.tabs.editors[i];
                b.reload_from_disk(text.as_str(), disk);
                let ghost after = self.tabs.editors@[i as int]@;
                assert(self.tabs@ =~= s.with_editor(i as int, after));
                proof {
                    lemma_with_editor(s, i as int, after);
                }
                let mut m = "Reloaded ".to_owned();
                m.append(name.as_str());
                self.notify(m, ToastKind::Info);
            },
            ReadOutcome::Failed(e) => {
                let mut m = "Couldn't reload: ".to_owned();
                m.append(e.as_str());
                self.notify(m, ToastKind::Error);
            },
        }
    }
}

/// One more file held against the disk.
proof fn lemma_notes(a: App, c: Checked, mid: App, seen: Seen, i: int, b: App)
    requires
        notes(a, c, mid),
        c.asked is None,
        0 <= i < c.editors.len(),
        notes(
            mid,
            checked_one(
                Checked { editors: mid.tabs@.editors, told: None, asked: None },
                seen,
                i,
            ),
            b,
        ),
    ensures
        notes(a, checked_one(c, seen, i), b),
{
}

/// Holding the files against the disk never touches the text of one with
/// unsaved edits.
pub proof fn law_unsaved_edits_survive(c: Checked, seen: Seq<Seen>, i: int, k: int)
    requires
        0 <= i,
        seen.len() == c.editors.len(),
        0 <= k < c.editors.len(),
        c.editors[k].modified,
    ensures
        checked_from(c, seen, i).editors.len() == c.editors.len(),
        checked_from(c, seen, i).editors[k].text == c.editors[k].text,
        checked_from(c, seen, i).editors[k].modified,
    decreases seen.len() - i,
{
    if i < seen.len() && c.asked is None {
        law_unsaved_edits_survive(checked_one(c, seen[i], i), seen, i + 1, k);
    }
}

} // verus!
