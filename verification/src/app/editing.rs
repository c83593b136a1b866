//! What the keys of the editor do to the text that is showing.

use crate::app::App;
use crate::buffer::opt_text;
use crate::buffer::state::{furthest, nearest, BufferState, Plan};
use crate::editline::char_len;
use crate::lines::{line_of, line_total};
use crate::paths::{relative, relative_path};
use crate::tabs::{copy_text, lemma_with_editor, TabsState};
use crate::text::{decimal, with_number};
use crate::toast::ToastKind;
use vstd::prelude::*;
use vstd::string::*;

verus! {

impl TabsState {
    /// Whether the selections of the text that is showing lie in it.
    pub open spec fn sound(self) -> bool {
        self.current() matches Some(b) ==> b.selections_ok()
    }

    /// Whether `n` characters can be typed into the text that is showing.
    pub open spec fn takes(self, n: int) -> bool {
        self.current() matches Some(b) ==> b.takes(n)
    }
}

impl BufferState {
    /// The text without what is selected.
    pub open spec fn without_selection(self) -> BufferState {
        if self.carets.len() > 0 {
            self.multi_edited(Plan::Cut)
        } else if self.primary().selecting() {
            self.selection_cut()
        } else {
            self
        }
    }
}

impl App {
    /// The place of the file that is showing.
    pub open spec fn shown(self) -> Option<BufferState> {
        self.tabs@.current()
    }

    /// Whether the selections of the text that is showing lie in it.
    pub fn is_sound(&self) -> (r: bool)
        requires
            self.wf(),
        ensures
            r == self.tabs@.sound(),
    {
        match self.tabs.active {
            Some(i) => self.tabs.editors[i].has_sound_selections(),
            None => true,
        }
    }

    /// Whether `n` characters can be typed into the text that is showing.
    pub fn has_room(&self, n: usize) -> (r: bool)
        requires
            self.wf(),
        ensures
            r == self.tabs@.takes(n as int),
    {
        match self.tabs.active {
            Some(i) => self.tabs.editors[i].has_room(n),
            None => true,
        }
    }

    /// Select the whole text.
    pub fn select_all(&mut self)
        requires
            old(self).wf(),
        ensures
            selects_all(*old(self), *final(self)),
            final(self).wf(),
    {
        if let Some(i) = self.tabs.active {
            let ghost s = self.tabs@;
            assert(s.editors[i as int] == self.tabs.editors@[i as int]@);
            let b = &mut self.tabs.editors[i];
            b.select_all();
            let ghost after = self.tabs.editors@[i as int]@;
            assert(self.tabs@ =~= s.with_editor(i as int, after));
            proof {
                lemma_with_editor(s, i as int, after);
            }
        }
    }

    /// Add a caret on the line below the lowest one.
    pub fn add_caret_below(&mut self)
        requires
            old(self).wf(),
        ensures
            adds_caret_below(*old(self), *final(self)),
            final(self).wf(),
    {
        if let Some(i) = self.tabs.active {
            let ghost s = self.tabs@;
            assert(s.editors[i as int] == self.tabs.editors@[i as int]@);
            let b = &mut self.tabs.editors[i];
            b.add_caret_below();
            let ghost after = self.tabs.editors@[i as int]@;
            assert(self.tabs@ =~= s.with_editor(i as int, after));
            proof {
                lemma_with_editor(s, i as int, after);
            }
        }
    }

    /// Add a caret on the line above the highest one.
    pub fn add_caret_above(&mut self)
        requires
            old(self).wf(),
        ensures
            adds_caret_above(*old(self), *final(self)),
            final(self).wf(),
    {
        if let Some(i) = self.tabs.active {
            let ghost s = self.tabs@;
            assert(s.editors[i as int] == self.tabs.editors@[i as int]@);
            let b = &mut self.tabs.editors[i];
            b.add_caret_above();
            let ghost after = self.tabs.editors@[i as int]@;
            assert(self.tabs@ =~= s.with_editor(i as int, after));
            proof {
                lemma_with_editor(s, i as int, after);
            }
        }
    }

    /// Select the next occurrence of what is selected, with a caret of its own.
    pub fn add_next_occurrence(&mut self)
        requires
            old(self).wf(),
            old(self).tabs@.sound(),
        ensures
            adds_occurrence(*old(self), *final(self)),
            final(self).wf(),
    {
        let mut added = false;
        if let Some(i) = self.tabs.active {
            let ghost s = self.tabs@;
            assert(s.editors[i as int] == self.tabs.editors@[i as int]@);
            let b = &mut self.tabs.editors[i];
            added = b.add_next_occurrence();
            let ghost after = self.tabs.editors@[i as int]@;
            assert(self.tabs@ =~= s.with_editor(i as int, after));
            proof {
                lemma_with_editor(s, i as int, after);
            }
        }
        if !added {
            self.notify("No more matches".to_owned(), ToastKind::Info);
        }
    }

    /// Collapse the carets into one, and say whether there were more.
    pub fn clear_editor_carets(&mut self) -> (r: bool)
        requires
            old(self).wf(),
        ensures
            drops_carets(*old(self), r, *final(self)),
            final(self).wf(),
    {
        if let Some(i) = self.tabs.active {
            let ghost s = self.tabs@;
            assert(s.editors[i as int] == self.tabs.editors@[i as int]@);
            let b = &mut self.tabs.editors[i];
            let r = b.clear_extra_carets();
            let ghost after = self.tabs.editors@[i as int]@;
            assert(self.tabs@ =~= s.with_editor(i as int, after));
            proof {
                lemma_with_editor(s, i as int, after);
            }
            return r;
        }
        false
    }

    /// What is selected in the text that is showing.
    fn selected(&self) -> (r: Option<String>)
        requires
            self.wf(),
            self.tabs@.sound(),
        ensures
            opt_text(r) == match self.shown() {
                Some(b) => b.selection_text(),
                None => None,
            },
    {
        match self.tabs.active {
            Some(i) => {
                assert(self.tabs@.editors[i as int] == self.tabs.editors@[i as int]@);
                self.tabs.editors[i].selected_text()
            },
            None => None,
        }
    }

    /// The text that is selected, where there is any.
    pub open spec fn selection(self) -> Option<Seq<char>> {
        match self.shown() {
            Some(b) => b.selection_text(),
            None => None,
        }
    }

    /// Copy what is selected.
    pub fn copy_selection(&mut self)
        requires
            old(self).wf(),
            old(self).tabs@.sound(),
        ensures
            copies_selection(*old(self), *final(self)),
            final(self).wf(),
    {
        if let Some(text) = self.selected() {
            let n: usize = char_len(text.as_str());
            self.set_clipboard(text);
            self.notify(with_number("Copied ", n, " chars"), ToastKind::Success);
        }
    }

    /// Take what is selected out of the text, without a notice.
    fn remove_selection(&mut self) -> (r: bool)
        requires
            old(self).wf(),
            old(self).tabs@.sound(),
        ensures
            *final(self) == (App { tabs: final(self).tabs, ..*old(self) }),
            final(self).tabs@ == match old(self).shown() {
                Some(b) => old(self).tabs@.with_current(b.without_selection()),
                None => old(self).tabs@,
            },
            r == (old(self).shown() matches Some(b) && if b.carets.len() > 0 {
                b.edits(Plan::Cut)
            } else {
                b.primary().selecting()
            }),
            final(self).wf(),
    {
        if let Some(i) = self.tabs.active {
            let ghost s = self.tabs@;
            assert(s.editors[i as int] == self.tabs.editors@[i as int]@);
            let b = &mut self.tabs.editors[i];
            let r = b.delete_selection();
            let ghost after = self.tabs.editors@[i as int]@;
            assert(self.tabs@ =~= s.with_editor(i as int, after));
            proof {
                lemma_with_editor(s, i as int, after);
            }
            return r;
        }
        false
    }

    /// Cut what is selected.
    pub fn cut_selection(&mut self)
        requires
            old(self).wf(),
            old(self).tabs@.sound(),
        ensures
            cuts_selection(*old(self), *final(self)),
            final(self).wf(),
    {
        if let Some(text) = self.selected() {
            let n: usize = char_len(text.as_str());
            self.remove_selection();
            self.set_clipboard(text);
            self.notify(with_number("Cut ", n, " chars"), ToastKind::Success);
        }
    }

    /// Delete what is selected, and say whether there was anything.
    pub fn delete_selection(&mut self) -> (r: bool)
        requires
            old(self).wf(),
            old(self).tabs@.sound(),
        ensures
            deletes_selection(*old(self), r, *final(self)),
            final(self).wf(),
    {
        if let Some(text) = self.selected() {
            let n: usize = char_len(text.as_str());
            if self.remove_selection() {
                self.notify(with_number("Deleted ", n, " chars"), ToastKind::Info);
                return true;
            }
        }
        false
    }

    /// Type what the clipboard holds at every caret, in place of what is
    /// selected.
    pub fn paste(&mut self, system: Option<String>)
        requires
            old(self).wf(),
            old(self).tabs@.takes(old(self).clip(system).len() as int),
        ensures
            pastes(*old(self), system, *final(self)),
            final(self).wf(),
    {
        let text = self.get_clipboard(system);
        let n: usize = char_len(text.as_str());
        if n == 0 {
            self.notify("Clipboard is empty".to_owned(), ToastKind::Info);
            return;
        }
        if let Some(i) = self.tabs.active {
            let ghost s = self.tabs@;
            assert(s.editors[i as int] == self.tabs.editors@[i as int]@);
            let b = &mut self.tabs.editors[i];
            b.insert_str(text.as_str());
            let ghost after = self.tabs.editors@[i as int]@;
            assert(self.tabs@ =~= s.with_editor(i as int, after));
            proof {
                lemma_with_editor(s, i as int, after);
            }
            self.notify(with_number("Pasted ", n, " chars"), ToastKind::Success);
        }
    }

    /// What is to be pasted.
    pub open spec fn clip(self, system: Option<String>) -> Seq<char> {
        match system {
            Some(t) => t@,
            None => self.clipboard_text@,
        }
    }

    /// Undo the last edit of the text that is showing.
    pub fn undo(&mut self)
        requires
            old(self).wf(),
        ensures
            undoes(*old(self), *final(self)),
            final(self).wf(),
    {
        if let Some(i) = self.tabs.active {
            let ghost s = self.tabs@;
            assert(s.editors[i as int] == self.tabs.editors@[i as int]@);
            let b = &mut self.tabs.editors[i];
            let done = b.undo();
            let ghost after = self.tabs.editors@[i as int]@;
            assert(self.tabs@ =~= s.with_editor(i as int, after));
            proof {
                lemma_with_editor(s, i as int, after);
            }
            if done {
                self.highlights.done = Vec::new();
            } else {
                self.notify("Nothing to undo".to_owned(), ToastKind::Info);
            }
        }
    }

    /// Redo the edit of the text that is showing that was undone last.
    pub fn redo(&mut self)
        requires
            old(self).wf(),
        ensures
            redoes(*old(self), *final(self)),
            final(self).wf(),
    {
        if let Some(i) = self.tabs.active {
            let ghost s = self.tabs@;
            assert(s.editors[i as int] == self.tabs.editors@[i as int]@);
            let b = &mut self.tabs.editors[i];
            let done = b.redo();
            let ghost after = self.tabs.editors@[i as int]@;
            assert(self.tabs@ =~= s.with_editor(i as int, after));
            proof {
                lemma_with_editor(s, i as int, after);
            }
            if done {
                self.highlights.done = Vec::new();
            } else {
                self.notify("Nothing to redo".to_owned(), ToastKind::Info);
            }
        }
    }

    /// How `path` is written for the clipboard: relative to the open folder
    /// where that is asked for and it lies in it.
    pub open spec fn written_path(self, path: Seq<char>, relative: bool) -> Seq<char> {
        if !relative {
            path
        } else {
            match self.root {
                Some(r) => match relative_path(r@, path) {
                    Some(p) => p,
                    None => path,
                },
                None => path,
            }
        }
    }

    /// Copy a path, whole or relative to the open folder.
    pub fn copy_path(&mut self, path: &str, relative_to_root: bool)
        requires
            old(self).wf(),
        ensures
            *final(self) == (App {
                clipboard_text: final(self).clipboard_text,
                clipboard_dirty: true,
                toast: final(self).toast,
                ..*old(self)
            }),
            final(self).clipboard_text@ == old(self).written_path(path@, relative_to_root),
            final(self).tells(
                if relative_to_root {
                    "Copied relative path"@
                } else {
                    "Copied path"@
                },
                ToastKind::Success,
            ),
            final(self).wf(),
    {
        let whole = path.to_owned();
        let text = if relative_to_root {
            match &self.root {
                Some(r) => match relative(r.as_str(), path) {
                    Some(p) => p,
                    None => whole,
                },
                None => whole,
            }
        } else {
            whole
        };
        let message = if relative_to_root {
            "Copied relative path".to_owned()
        } else {
            "Copied path".to_owned()
        };
        self.notify(message, ToastKind::Success);
        self.set_clipboard(text);
    }

    /// Copy the path of the file that is showing.
    pub fn copy_active_path(&mut self, relative_to_root: bool)
        requires
            old(self).wf(),
        ensures
            copies_active_path(*old(self), relative_to_root, *final(self)),
            final(self).wf(),
    {
        let path = match self.tabs.active {
            Some(i) => {
                assert(self.tabs@.editors[i as int] == self.tabs.editors@[i as int]@);
                copy_text(&self.tabs.editors[i].path)
            },
            None => None,
        };
        match path {
            Some(p) => self.copy_path(p.as_str(), relative_to_root),
            None => self.notify("No file open".to_owned(), ToastKind::Info),
        }
    }
}

/// Whether selecting the whole text makes `b` of `a`.
pub open spec fn selects_all(a: App, b: App) -> bool {
    &&& b == (App { tabs: b.tabs, ..a })
    &&& b.tabs@ == match a.shown() {
        Some(cur) => a.tabs@.with_current(
            cur.selected(0, cur.text.len() as int),
        ),
        None => a.tabs@,
    }
}

/// Whether a caret below the lowest one makes `b` of `a`.
pub open spec fn adds_caret_below(a: App, b: App) -> bool {
    &&& b == (App { tabs: b.tabs, ..a })
    &&& b.tabs@ == match a.shown() {
        Some(cur) => a.tabs@.with_current(
            ({
                let base = furthest(cur.flagged());
                let row = line_of(cur.text, base.cursor);
                if row + 1 < line_total(cur.text) {
                    cur.caret_added_on(base, row + 1)
                } else {
                    cur
                }
            }),
        ),
        None => a.tabs@,
    }
}

/// Whether a caret above the highest one makes `b` of `a`.
pub open spec fn adds_caret_above(a: App, b: App) -> bool {
    &&& b == (App { tabs: b.tabs, ..a })
    &&& b.tabs@ == match a.shown() {
        Some(cur) => a.tabs@.with_current(
            ({
                let base = nearest(cur.flagged());
                let row = line_of(cur.text, base.cursor);
                if row > 0 {
                    cur.caret_added_on(base, row - 1)
                } else {
                    cur
                }
            }),
        ),
        None => a.tabs@,
    }
}

/// Whether a caret at the next occurrence makes `b` of `a`.
pub open spec fn adds_occurrence(a: App, b: App) -> bool {
    match a.shown() {
        Some(cur) => {
            &&& b.tabs@ == a.tabs@.with_current(cur.next_occurrence_added())
            &&& if cur.has_next_occurrence() {
                b == (App { tabs: b.tabs, ..a })
            } else {
                &&& b == (App {
                    tabs: b.tabs,
                    toast: b.toast,
                    ..a
                })
                &&& b.tells("No more matches"@, ToastKind::Info)
            }
        },
        None => {
            &&& b == (App { toast: b.toast, ..a })
            &&& b.tells("No more matches"@, ToastKind::Info)
        },
    }
}

/// Whether dropping the extra carets makes `b` of `a`, and whether there were any.
pub open spec fn drops_carets(a: App, r: bool, b: App) -> bool {
    &&& b == (App { tabs: b.tabs, ..a })
    &&& b.tabs@ == match a.shown() {
        Some(cur) => a.tabs@.with_current(
            BufferState { carets: Seq::empty(), ..cur },
        ),
        None => a.tabs@,
    }
    &&& r == (a.shown() matches Some(cur) && cur.carets.len() > 0)
}

/// Whether copying the selection makes `b` of `a`.
pub open spec fn copies_selection(a: App, b: App) -> bool {
    match a.selection() {
        Some(t) => {
            &&& b == (App {
                clipboard_text: b.clipboard_text,
                clipboard_dirty: true,
                toast: b.toast,
                ..a
            })
            &&& b.clipboard_text@ == t
            &&& b.tells(
                "Copied "@ + decimal(t.len()) + " chars"@,
                ToastKind::Success,
            )
        },
        None => b == a,
    }
}

/// Whether cutting the selection out makes `b` of `a`.
pub open spec fn cuts_selection(a: App, b: App) -> bool {
    match a.selection() {
        Some(t) => {
            &&& b == (App {
                tabs: b.tabs,
                clipboard_text: b.clipboard_text,
                clipboard_dirty: true,
                toast: b.toast,
                ..a
            })
            &&& b.tabs@ == a.tabs@.with_current(
                a.shown()->0.without_selection(),
            )
            &&& b.clipboard_text@ == t
            &&& b.tells(
                "Cut "@ + decimal(t.len()) + " chars"@,
                ToastKind::Success,
            )
        },
        None => b == a,
    }
}

/// Whether deleting the selection makes `b` of `a`, and whether anything went.
pub open spec fn deletes_selection(a: App, r: bool, b: App) -> bool {
    match a.selection() {
        Some(t) => {
            let cur = a.shown()->0;
            &&& b.tabs@ == a.tabs@.with_current(cur.without_selection())
            &&& r == if cur.carets.len() > 0 {
                cur.edits(Plan::Cut)
            } else {
                cur.primary().selecting()
            }
            &&& if r {
                &&& b == (App {
                    tabs: b.tabs,
                    toast: b.toast,
                    ..a
                })
                &&& b.tells(
                    "Deleted "@ + decimal(t.len()) + " chars"@,
                    ToastKind::Info,
                )
            } else {
                b == (App { tabs: b.tabs, ..a })
            }
        },
        None => b == a && !r,
    }
}

/// Whether pasting makes `b` of `a`.
pub open spec fn pastes(a: App, system: Option<String>, b: App) -> bool {
    let t = a.clip(system);
    if t.len() == 0 {
        &&& b == (App { toast: b.toast, ..a })
        &&& b.tells("Clipboard is empty"@, ToastKind::Info)
    } else {
        match a.shown() {
            Some(cur) => {
                &&& b == (App {
                    tabs: b.tabs,
                    toast: b.toast,
                    ..a
                })
                &&& b.tabs@ == a.tabs@.with_current(cur.pasted(t))
                &&& b.tells(
                    "Pasted "@ + decimal(t.len()) + " chars"@,
                    ToastKind::Success,
                )
            },
            None => b == a,
        }
    }
}

/// Whether undoing makes `b` of `a`.
pub open spec fn undoes(a: App, b: App) -> bool {
    match a.shown() {
        Some(cur) => {
            &&& b.tabs@ == a.tabs@.with_current(cur.undone())
            &&& if cur.undo.len() > 0 {
                &&& b == (App {
                    tabs: b.tabs,
                    highlights: b.highlights,
                    ..a
                })
                &&& b.highlights.done@.len() == 0
                &&& b.highlights.pending == a.highlights.pending
            } else {
                &&& b == (App {
                    tabs: b.tabs,
                    toast: b.toast,
                    ..a
                })
                &&& b.tells("Nothing to undo"@, ToastKind::Info)
            }
        },
        None => b == a,
    }
}

/// Whether redoing makes `b` of `a`.
pub open spec fn redoes(a: App, b: App) -> bool {
    match a.shown() {
        Some(cur) => {
            &&& b.tabs@ == a.tabs@.with_current(cur.redone())
            &&& if cur.redo.len() > 0 {
                &&& b == (App {
                    tabs: b.tabs,
                    highlights: b.highlights,
                    ..a
                })
                &&& b.highlights.done@.len() == 0
                &&& b.highlights.pending == a.highlights.pending
            } else {
                &&& b == (App {
                    tabs: b.tabs,
                    toast: b.toast,
                    ..a
                })
                &&& b.tells("Nothing to redo"@, ToastKind::Info)
            }
        },
        None => b == a,
    }
}

/// Whether copying the path of the file that is showing makes `b` of `a`.
pub open spec fn copies_active_path(a: App, relative_to_root: bool, b: App) -> bool {
    match a.shown() {
        Some(cur) => match cur.path {
            Some(p) => {
                &&& b == (App {
                    clipboard_text: b.clipboard_text,
                    clipboard_dirty: true,
                    toast: b.toast,
                    ..a
                })
                &&& b.clipboard_text@ == a.written_path(
                    p,
                    relative_to_root,
                )
                &&& b.tells(
                    if relative_to_root {
                        "Copied relative path"@
                    } else {
                        "Copied path"@
                    },
                    ToastKind::Success,
                )
            },
            None => {
                &&& b == (App { toast: b.toast, ..a })
                &&& b.tells("No file open"@, ToastKind::Info)
            },
        },
        None => {
            &&& b == (App { toast: b.toast, ..a })
            &&& b.tells("No file open"@, ToastKind::Info)
        },
    }
}

} // verus!
