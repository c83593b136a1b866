//! Typing into the file dialog.

use crate::app::browsing::{lists_for, BrowseStep};
use crate::app::finding::copies;
use crate::app::App;
use crate::buffer::opt_text;
use crate::editline::{
    backspace, char_len, delete_selection, insert, insert_str, lemma_length_after,
    lemma_paste_leaves_the_field, selected_text, Edit, Field,
};
use crate::filedialog::{all_fit, lemma_all_fit, table_fits, texts, FileDialog};
use crate::fstree::collect::{marked_files, walk_view};
use crate::keyevent::{KeyCode, KeyEvent};
use crate::requests::{flattened, one_line};
use crate::toast::ToastKind;
use vstd::prelude::*;
use vstd::string::*;

verus! {

impl App {
    /// Whether the files can be searched for a query that is longer by `n`
    /// characters.
    pub open spec fn query_fits(self, n: int) -> bool {
        all_fit(texts(self.entries.display@), self.file_dialog.query@.len() + n)
    }

    /// Whether the files can be searched for a query that is longer by `n`
    /// characters.
    pub fn has_query_room(&self, n: usize) -> (r: bool)
        ensures
            r == self.query_fits(n as int),
    {
        let q: usize = char_len(self.file_dialog.query.as_str());
        let most: u64 = u32::MAX as u64;
        if q as u64 > most || n as u64 > most - q as u64 {
            return false;
        }
        let len: usize = q + n;
        let ghost all = texts(self.entries.display@);
        let mut i: usize = 0;
        while i < self.entries.display.len()
            invariant
                i <= self.entries.display@.len(),
                all == texts(self.entries.display@),
                len == self.file_dialog.query@.len() + n,
                forall|k: int|
                    0 <= k < i ==> crate::fuzzy::fits_table(
                        len as int,
                        (#[trigger] all[k]).len() as int,
                    ),
            decreases self.entries.display.len() - i,
        {
            if !table_fits(len, char_len(self.entries.display[i].as_str())) {
                assert(!crate::fuzzy::fits_table(len as int, all[i as int].len() as int));
                return false;
            }
            i = i + 1;
        }
        true
    }

    /// Type into the query.
    pub fn dialog_input(&mut self, c: char)
        requires
            old(self).wf(),
            old(self).file_dialog.cursor < usize::MAX,
            old(self).query_fits(1),
        ensures
            lists_for(
                *old(self),
                old(self).file_dialog.field().typed(seq![c]).clamped(),
                *final(self),
            ),
            final(self).wf(),
    {
        let ghost f = self.file_dialog.field();
        let ghost all = texts(self.entries.display@);
        insert(
            &mut self.file_dialog.query,
            &mut self.file_dialog.cursor,
            &mut self.file_dialog.anchor,
            c,
        );
        proof {
            lemma_length_after(f, KeyCode::Esc, false, false, false, seq![c]);
            lemma_all_fit(all, f.text.len() as int + 1, self.file_dialog.query@);
        }
        self.dialog_query_changed();
    }

    /// Delete from the query; with nothing asked, go out of the folder that the
    /// dialog is limited to.
    pub fn dialog_backspace(&mut self) -> (r: BrowseStep)
        requires
            old(self).wf(),
            old(self).query_fits(0),
        ensures
            erases(*old(self), r, *final(self)),
            final(self).wf(),
    {
        if self.dialog_tree_mode() {
            return self.dialog_scope_pop();
        }
        let ghost f = self.file_dialog.field();
        let ghost all = texts(self.entries.display@);
        backspace(
            &mut self.file_dialog.query,
            &mut self.file_dialog.cursor,
            &mut self.file_dialog.anchor,
        );
        proof {
            lemma_length_after(f, KeyCode::Esc, false, false, false, Seq::empty());
            lemma_all_fit(all, f.text.len() as int, self.file_dialog.query@);
        }
        self.dialog_query_changed();
        BrowseStep::Nothing
    }

    /// Copy what is selected in the query.
    pub fn dialog_copy_text(&mut self)
        requires
            old(self).wf(),
        ensures
            copies(*old(self), old(self).file_dialog.field().selection_text(), *final(self)),
            final(self).wf(),
    {
        if let Some(t) = selected_text(
            self.file_dialog.query.as_str(),
            self.file_dialog.cursor,
            self.file_dialog.anchor,
        ) {
            self.set_clipboard(t);
        }
    }

    /// Cut what is selected in the query.
    pub fn dialog_cut_text(&mut self)
        requires
            old(self).wf(),
            old(self).query_fits(0),
        ensures
            if old(self).file_dialog.field().selecting() {
                &&& lists_for(
                    App {
                        clipboard_text: final(self).clipboard_text,
                        clipboard_dirty: true,
                        ..*old(self)
                    },
                    old(self).file_dialog.field().cut().clamped(),
                    *final(self),
                )
                &&& Some(final(self).clipboard_text@) == old(
                    self,
                ).file_dialog.field().selection_text()
            } else {
                *final(self) == *old(self)
            },
            final(self).wf(),
    {
        self.dialog_copy_text();
        if self.file_dialog.cursor == self.file_dialog.anchor.unwrap_or(self.file_dialog.cursor) {
            return;
        }
        let ghost f = self.file_dialog.field();
        let ghost all = texts(self.entries.display@);
        delete_selection(
            &mut self.file_dialog.query,
            &mut self.file_dialog.cursor,
            &mut self.file_dialog.anchor,
        );
        proof {
            lemma_length_after(f, KeyCode::Esc, false, false, false, Seq::empty());
            lemma_all_fit(all, f.text.len() as int, self.file_dialog.query@);
        }
        self.dialog_query_changed();
    }

    /// Put what the clipboard holds into the query, on one line.
    pub fn dialog_paste_text(&mut self, system: Option<String>)
        requires
            old(self).wf(),
            old(self).file_dialog.cursor + flattened(old(self).clip(system)).len() <= usize::MAX,
            old(self).query_fits(flattened(old(self).clip(system)).len() as int),
        ensures
            ({
                let t = flattened(old(self).clip(system));
                if t.len() > 0 {
                    lists_for(
                        *old(self),
                        old(self).file_dialog.field().typed(t).clamped(),
                        *final(self),
                    )
                } else {
                    *final(self) == *old(self)
                }
            }),
            final(self).wf(),
    {
        let t = one_line(self.get_clipboard(system));
        if char_len(t.as_str()) > 0 {
            let ghost f = self.file_dialog.field();
            let ghost all = texts(self.entries.display@);
            insert_str(
                &mut self.file_dialog.query,
                &mut self.file_dialog.cursor,
                &mut self.file_dialog.anchor,
                t.as_str(),
            );
            proof {
                lemma_length_after(f, KeyCode::Esc, false, false, false, t@);
                lemma_all_fit(all, (f.text.len() + t@.len()) as int, self.file_dialog.query@);
            }
            self.dialog_query_changed();
        }
    }

    /// Do what a key in the query asks for beyond the query itself.
    fn follow_files(&mut self, e: Edit, system: Option<String>)
        requires
            old(self).wf(),
            old(self).query_fits(0),
            e == Edit::Paste ==> {
                &&& old(self).file_dialog.cursor + flattened(old(self).clip(system)).len()
                    <= usize::MAX
                &&& old(self).query_fits(flattened(old(self).clip(system)).len() as int)
            },
        ensures
            files_edited(
                *old(self),
                old(self).file_dialog.field(),
                e,
                flattened(old(self).clip(system)),
                *final(self),
            ),
            final(self).wf(),
    {
        if e == Edit::Changed {
            proof {
                lemma_all_fit(
                    texts(self.entries.display@),
                    self.file_dialog.query@.len() as int,
                    self.file_dialog.query@,
                );
            }
            self.dialog_query_changed();
            return;
        }
        if e == Edit::Copy {
            self.dialog_copy_text();
            return;
        }
        if e == Edit::Cut {
            self.dialog_cut_text();
            return;
        }
        if e == Edit::Paste {
            self.dialog_paste_text(system);
            return;
        }
    }

    /// A key in the query. What it asks of the clipboard is done too.
    pub fn edit_files(&mut self, key: KeyEvent, ctrl: bool, alt: bool, shift: bool, system: Option<
        String,
    >)
        requires
            old(self).wf(),
            old(self).file_dialog.cursor < usize::MAX,
            old(self).file_dialog.cursor + flattened(old(self).clip(system)).len() <= usize::MAX,
            old(self).query_fits((1 + flattened(old(self).clip(system)).len()) as int),
        ensures
            ({
                let (q, e) = old(self).file_dialog.field().after_key(key.code, ctrl, alt, shift);
                files_edited(*old(self), q, e, flattened(old(self).clip(system)), *final(self))
            }),
            final(self).wf(),
    {
        let ghost a = *self;
        let ghost t = flattened(a.clip(system));
        let e = self.file_dialog.edit_query(key, ctrl, alt, shift);
        let ghost mid = *self;
        proof {
            let f = a.file_dialog.field();
            lemma_paste_leaves_the_field(f, key.code, ctrl, alt, shift);
            lemma_length_after(f, key.code, ctrl, alt, shift, t);
            let all = texts(a.entries.display@);
            let n = (f.text.len() + 1 + t.len()) as int;
            lemma_fit_less(all, n, mid.file_dialog.query@.len() as int);
            lemma_fit_less(all, n, (f.text.len() + t.len()) as int);
        }
        self.follow_files(e, system);
        proof {
            lemma_files_edited(a, mid, mid.file_dialog.field(), e, t, *self);
        }
    }

    /// Take what builds and package managers leave into the search, or leave it
    /// out again. The walks are those for the new choice.
    pub fn dialog_toggle_junk(
        &mut self,
        walk: &Vec<(String, bool)>,
        heeding_walk: &Vec<(String, bool)>,
    )
        requires
            old(self).wf(),
            old(self).root matches Some(r) ==> all_fit(
                crate::app::browsing::shown_paths(
                    r@,
                    marked_files(walk_view(walk@), walk_view(heeding_walk@)),
                ),
                old(self).file_dialog.query@.len() as int,
            ),
            old(self).root is None ==> old(self).file_dialog.query@.len() <= u32::MAX,
        ensures
            final(self).show_junk == !old(self).show_junk,
            crate::app::browsing::entries_anew(
                *old(self),
                marked_files(walk_view(walk@), walk_view(heeding_walk@)),
                final(self).entries,
            ),
            lists_for(
                App {
                    show_junk: final(self).show_junk,
                    entries: final(self).entries,
                    toast: final(self).toast,
                    ..*old(self)
                },
                old(self).file_dialog.field(),
                *final(self),
            ),
            final(self).tells(
                if final(self).show_junk {
                    "Search now includes node_modules / build dirs (\u{2325}H)"@
                } else {
                    "Search hides node_modules / build dirs (\u{2325}H)"@
                },
                ToastKind::Info,
            ),
            final(self).wf(),
    {
        self.show_junk = !self.show_junk;
        self.rebuild_dialog_entries(walk, heeding_walk);
        proof {
            lemma_all_fit(
                texts(self.entries.display@),
                self.file_dialog.query@.len() as int,
                self.file_dialog.query@,
            );
        }
        self.dialog_refilter();
        let message = if self.show_junk {
            "Search now includes node_modules / build dirs (\u{2325}H)".to_owned()
        } else {
            "Search hides node_modules / build dirs (\u{2325}H)".to_owned()
        };
        self.notify(message, ToastKind::Info);
    }
}

/// What can be searched for a long query can be searched for a short one.
pub proof fn lemma_fit_less(entries: Seq<Seq<char>>, n: int, m: int)
    requires
        all_fit(entries, n),
        m <= n,
    ensures
        all_fit(entries, m),
{
    assert forall|i: int| 0 <= i < entries.len() implies crate::fuzzy::fits_table(
        m,
        (#[trigger] entries[i]).len() as int,
    ) by {
        let t = entries[i].len() as int;
        assert(m * t <= n * t) by (nonlinear_arith)
            requires
                m <= n,
                t >= 0,
        ;
    }
}

/// Whether `b` is `a` after a key made `q` of the query and asked for `e`, the
/// clipboard holding `t`.
pub open spec fn files_edited(a: App, q: Field, e: Edit, t: Seq<char>, b: App) -> bool {
    let still = b == (App { file_dialog: b.file_dialog, ..a }) && b.file_dialog == (FileDialog {
        query: b.file_dialog.query,
        cursor: b.file_dialog.cursor,
        anchor: b.file_dialog.anchor,
        ..a.file_dialog
    }) && b.file_dialog.field() == q;
    match e {
        Edit::Ignored | Edit::Moved => still,
        Edit::Changed => lists_for(a, q.clamped(), b),
        Edit::Copy => {
            &&& copies(App { file_dialog: b.file_dialog, ..a }, q.selection_text(), b)
            &&& b.file_dialog == (FileDialog {
                query: b.file_dialog.query,
                cursor: b.file_dialog.cursor,
                anchor: b.file_dialog.anchor,
                ..a.file_dialog
            })
            &&& b.file_dialog.field() == q
        },
        Edit::Cut => if q.selecting() {
            &&& lists_for(
                App { clipboard_text: b.clipboard_text, clipboard_dirty: true, ..a },
                q.cut().clamped(),
                b,
            )
            &&& Some(b.clipboard_text@) == q.selection_text()
        } else {
            still
        },
        Edit::Paste => if t.len() > 0 {
            lists_for(a, q.typed(t).clamped(), b)
        } else {
            still
        },
    }
}

/// A change of the query before what a key asks for is done counts as part of
/// it.
proof fn lemma_files_edited(a: App, mid: App, q: Field, e: Edit, t: Seq<char>, b: App)
    requires
        mid == (App { file_dialog: mid.file_dialog, ..a }),
        mid.file_dialog == (FileDialog {
            query: mid.file_dialog.query,
            cursor: mid.file_dialog.cursor,
            anchor: mid.file_dialog.anchor,
            ..a.file_dialog
        }),
        mid.file_dialog.field() == q,
        files_edited(mid, q, e, t, b),
    ensures
        files_edited(a, q, e, t, b),
{
}

/// Whether Backspace in the file dialog makes `b` of `a`, and what is left to do.
pub open spec fn erases(a: App, r: BrowseStep, b: App) -> bool {
    &&& a.file_dialog.query@.len() > 0 ==> lists_for(
        a,
        a.file_dialog.field().backspaced().clamped(),
        b,
    ) && r is Nothing
    &&& a.file_dialog.query@.len() == 0 ==> if a.scope is None {
        b == a && r is Nothing
    } else {
        &&& b == (App { scope: b.scope, ..a })
        &&& opt_text(b.scope) == a.outer_scope()
        &&& match b.browsed() {
            Some(f) => r matches BrowseStep::Reroot(p) && p@ == f,
            None => r is Nothing,
        }
    }
}

} // verus!
