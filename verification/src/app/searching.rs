//! The dialog that searches every file of the project.

use crate::app::finding::copies;
use crate::app::App;
use crate::editline::{
    backspace, char_len, clamp, delete_selection, insert, insert_str, lemma_paste_leaves_the_field,
    selected_text, Edit, Field,
};
use crate::keyevent::KeyEvent;
use crate::requests::{flattened, one_line};
use crate::search::{results_view, FileHits, Hit, SearchState};
use crate::tabs::lemma_with_editor;
use crate::text::between;
use crate::toast::ToastKind;
use vstd::prelude::*;
use vstd::string::*;

verus! {

/// Whether `b` is `a` after the query became `q`: the results are gone, and the
/// search comes when the query has rested.
pub open spec fn asks(a: App, q: Field, b: App) -> bool {
    &&& b == App { search: b.search, ..a }
    &&& b.search@ == SearchState { query: q.clamped(), ..a.search@ }.invalidated(a.now)
}

impl App {
    /// The query changed: drop the results, and let the search come when it has
    /// rested.
    pub fn search_files_query_changed(&mut self)
        requires
            old(self).wf(),
        ensures
            asks(*old(self), old(self).search@.query, *final(self)),
            final(self).wf(),
    {
        clamp(self.search.query.as_str(), &mut self.search.cursor, &mut self.search.anchor);
        let now: u64 = self.now;
        self.search.invalidate(now);
    }

    /// Type into the query.
    pub fn search_files_input(&mut self, c: char)
        requires
            old(self).wf(),
            old(self).search.cursor < usize::MAX,
        ensures
            asks(*old(self), old(self).search@.query.typed(seq![c]), *final(self)),
            final(self).wf(),
    {
        insert(&mut self.search.query, &mut self.search.cursor, &mut self.search.anchor, c);
        self.search_files_query_changed();
    }

    /// Delete from the query.
    pub fn search_files_backspace(&mut self)
        requires
            old(self).wf(),
        ensures
            asks(*old(self), old(self).search@.query.backspaced(), *final(self)),
            final(self).wf(),
    {
        backspace(&mut self.search.query, &mut self.search.cursor, &mut self.search.anchor);
        self.search_files_query_changed();
    }

    /// Copy what is selected in the query.
    pub fn search_files_copy(&mut self)
        requires
            old(self).wf(),
        ensures
            copies(*old(self), old(self).search@.query.selection_text(), *final(self)),
            final(self).wf(),
    {
        if let Some(t) = selected_text(
            self.search.query.as_str(),
            self.search.cursor,
            self.search.anchor,
        ) {
            self.set_clipboard(t);
        }
    }

    /// Cut what is selected in the query.
    pub fn search_files_cut(&mut self)
        requires
            old(self).wf(),
        ensures
            if old(self).search@.query.selecting() {
                &&& asks(
                    App {
                        clipboard_text: final(self).clipboard_text,
                        clipboard_dirty: true,
                        ..*old(self)
                    },
                    old(self).search@.query.cut(),
                    *final(self),
                )
                &&& Some(final(self).clipboard_text@) == old(self).search@.query.selection_text()
            } else {
                *final(self) == *old(self)
            },
            final(self).wf(),
    {
        self.search_files_copy();
        if self.search.cursor == self.search.anchor.unwrap_or(self.search.cursor) {
            return;
        }
        delete_selection(
            &mut self.search.query,
            &mut self.search.cursor,
            &mut self.search.anchor,
        );
        self.search_files_query_changed();
    }

    /// Put what the clipboard holds into the query, on one line.
    pub fn search_files_paste(&mut self, system: Option<String>)
        requires
            old(self).wf(),
            old(self).search.cursor + flattened(old(self).clip(system)).len() <= usize::MAX,
        ensures
            ({
                let t = flattened(old(self).clip(system));
                if t.len() > 0 {
                    asks(*old(self), old(self).search@.query.typed(t), *final(self))
                } else {
                    *final(self) == *old(self)
                }
            }),
            final(self).wf(),
    {
        let t = one_line(self.get_clipboard(system));
        if char_len(t.as_str()) > 0 {
            insert_str(
                &mut self.search.query,
                &mut self.search.cursor,
                &mut self.search.anchor,
                t.as_str(),
            );
            self.search_files_query_changed();
        }
    }

    /// Select the result before.
    pub fn search_files_up(&mut self)
        requires
            old(self).wf(),
        ensures
            search_goes_up(*old(self), *final(self)),
            final(self).wf(),
    {
        self.search.move_up();
    }

    /// Select the result behind.
    pub fn search_files_down(&mut self)
        requires
            old(self).wf(),
        ensures
            search_goes_down(*old(self), *final(self)),
            final(self).wf(),
    {
        self.search.move_down();
    }

    /// Whether the query has rested, so that the files are to be searched now.
    pub fn poll_pending_search(&self) -> (r: bool)
        ensures
            r == (self.search@.pending matches Some(at) && self.now >= at),
    {
        self.search.is_due(self.now)
    }

    /// Take what the search of the files gave. Without a folder or a query
    /// nothing was asked.
    pub fn run_project_search(&mut self, results: Vec<FileHits>, truncated: bool)
        requires
            old(self).wf(),
        ensures
            ({
                let s = old(self).search@;
                let found = s.found(results_view(results@), truncated);
                if old(self).root is None {
                    &&& *final(self) == (App { search: final(self).search, ..*old(self) })
                    &&& final(self).search@ == (SearchState { pending: None, ..s })
                } else if s.query.text.len() == 0 {
                    &&& *final(self) == (App { search: final(self).search, ..*old(self) })
                    &&& final(self).search@ == s.invalidated(old(self).now)
                } else if found.total() > 0 {
                    &&& *final(self) == (App { search: final(self).search, ..*old(self) })
                    &&& final(self).search@ == found
                } else {
                    &&& *final(self) == (App {
                        search: final(self).search,
                        toast: final(self).toast,
                        ..*old(self)
                    })
                    &&& final(self).search@ == found
                    &&& final(self).tells(
                        "No results for \""@ + s.query.text + "\""@,
                        ToastKind::Info,
                    )
                }
            }),
            final(self).wf(),
    {
        self.search.pending_search_at = None;
        if self.root.is_none() {
            return;
        }
        if char_len(self.search.query.as_str()) == 0 {
            let now: u64 = self.now;
            self.search.invalidate(now);
            return;
        }
        self.search.take_results(results, truncated);
        if self.search.total_matches() == 0 {
            let m = between("No results for \"", self.search.query.as_str(), "\"");
            self.notify(m, ToastKind::Info);
        }
    }

    /// The file and the place in it that are selected, to be opened.
    pub fn search_files_open_selected(&self) -> (r: Option<(String, Hit)>)
        ensures
            match (r, self.search@.picked()) {
                (Some((p, h)), Some((f, k))) => {
                    &&& p@ == self.search@.results[f].path
                    &&& h == self.search@.results[f].hits[k]
                },
                (None, None) => true,
                _ => false,
            },
    {
        match self.search.selected_match() {
            Some((f, k)) => {
                assert(self.search@.results[f as int] == self.search.results@[f as int]@);
                Some((self.search.results[f].path.clone(), self.search.results[f].hits[k]))
            },
            None => None,
        }
    }

    /// Select a place in the text that is showing, as far as the text reaches.
    pub fn select_hit(&mut self, h: Hit)
        requires
            old(self).wf(),
        ensures
            *final(self) == (App { tabs: final(self).tabs, ..*old(self) }),
            final(self).tabs@ == match old(self).shown() {
                Some(b) => old(self).tabs@.with_current(
                    b.span_selected(h.line as int, h.col as int, h.end_col as int),
                ),
                None => old(self).tabs@,
            },
            final(self).wf(),
    {
        if let Some(i) = self.tabs.active {
            let ghost s = self.tabs@;
            assert(s.editors[i as int] == self.tabs.editors@[i as int]@);
            let b = &mut self.tabs.editors[i];
            b.select_span(h.line, h.col, h.end_col);
            let ghost after = self.tabs.editors@[i as int]@;
            assert(self.tabs@ =~= s.with_editor(i as int, after));
            proof {
                lemma_with_editor(s, i as int, after);
            }
        }
    }

    /// Do what a key in the query asks for beyond the query itself.
    fn follow_search(&mut self, e: Edit, system: Option<String>)
        requires
            old(self).wf(),
            e == Edit::Paste ==> old(self).search.cursor + flattened(old(self).clip(system)).len()
                <= usize::MAX,
        ensures
            search_edited(
                *old(self),
                old(self).search@.query,
                e,
                flattened(old(self).clip(system)),
                *final(self),
            ),
            final(self).wf(),
    {
        if e == Edit::Changed {
            self.search_files_query_changed();
            return;
        }
        if e == Edit::Copy {
            self.search_files_copy();
            return;
        }
        if e == Edit::Cut {
            self.search_files_cut();
            return;
        }
        if e == Edit::Paste {
            self.search_files_paste(system);
            return;
        }
    }

    /// A key in the query. What it asks of the clipboard is done too.
    pub fn edit_search(&mut self, key: KeyEvent, ctrl: bool, alt: bool, shift: bool, system: Option<
        String,
    >)
        requires
            old(self).wf(),
            old(self).search.cursor < usize::MAX,
            old(self).search.cursor + flattened(old(self).clip(system)).len() <= usize::MAX,
        ensures
            ({
                let (q, e) = old(self).search@.query.after_key(key.code, ctrl, alt, shift);
                search_edited(*old(self), q, e, flattened(old(self).clip(system)), *final(self))
            }),
            final(self).wf(),
    {
        let ghost a = *self;
        let e = self.search.edit_query(key, ctrl, alt, shift);
        let ghost mid = *self;
        let ghost t = flattened(a.clip(system));
        proof {
            lemma_paste_leaves_the_field(a.search@.query, key.code, ctrl, alt, shift);
        }
        self.follow_search(e, system);
        proof {
            lemma_search_edited(a, mid, mid.search@.query, e, t, *self);
        }
    }
}

/// Whether `b` is `a` after a key made `q` of the query and asked for `e`, the
/// clipboard holding `t`.
pub open spec fn search_edited(a: App, q: Field, e: Edit, t: Seq<char>, b: App) -> bool {
    let still = b == (App { search: b.search, ..a }) && b.search@ == (SearchState {
        query: q,
        ..a.search@
    });
    match e {
        Edit::Ignored | Edit::Moved => still,
        Edit::Changed => asks(a, q, b),
        Edit::Copy => {
            &&& copies(App { search: b.search, ..a }, q.selection_text(), b)
            &&& b.search@ == (SearchState { query: q, ..a.search@ })
        },
        Edit::Cut => if q.selecting() {
            &&& asks(
                App { clipboard_text: b.clipboard_text, clipboard_dirty: true, ..a },
                q.cut(),
                b,
            )
            &&& Some(b.clipboard_text@) == q.selection_text()
        } else {
            still
        },
        Edit::Paste => if t.len() > 0 {
            asks(a, q.typed(t), b)
        } else {
            still
        },
    }
}

/// A change of the query before what a key asks for is done counts as part of
/// it.
proof fn lemma_search_edited(a: App, mid: App, q: Field, e: Edit, t: Seq<char>, b: App)
    requires
        mid == (App { search: mid.search, ..a }),
        mid.search@ == (SearchState { query: q, ..a.search@ }),
        search_edited(mid, q, e, t, b),
    ensures
        search_edited(a, q, e, t, b),
{
}

/// Whether going up in the results makes `b` of `a`.
pub open spec fn search_goes_up(a: App, b: App) -> bool {
    &&& b == (App { search: b.search, ..a })
    &&& b.search@ == (SearchState {
        selected: if a.search@.selected > 0 {
            a.search@.selected - 1
        } else {
            0
        },
        ..a.search@
    })
}

/// Whether going down in the results makes `b` of `a`.
pub open spec fn search_goes_down(a: App, b: App) -> bool {
    &&& b == (App { search: b.search, ..a })
    &&& b.search@ == (SearchState {
        selected: if a.search@.selected + 1 < a.search@.total() && a.search@.selected + 1 < usize::MAX {
            a.search@.selected + 1
        } else {
            a.search@.selected
        },
        ..a.search@
    })
}

} // verus!
