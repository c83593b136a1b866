//! The find bar: searching the text that is showing, and replacing in it.

use crate::app::App;
use crate::buffer::Buffer;
use crate::buffer::state::{least, spliced, BufferState};
use crate::editline::{
    backspace, char_len, clamp, delete_selection, insert, insert_str,
    lemma_paste_leaves_the_field, selected_text, Edit, Field,
};
use crate::find::{
    apart_in, law_matches_are_the_occurrences, matches_in, ranges, replaced_all,
    FindState,
};
use crate::keyevent::KeyEvent;
use crate::requests::{flattened, one_line};
use crate::rope::{fits_rope, rope_chars};
use crate::tabs::{lemma_with_editor, TabsState};
use vstd::prelude::*;
use vstd::string::*;

verus! {

impl TabsState {
    /// The text that is showing.
    pub open spec fn text(self) -> Seq<char> {
        match self.current() {
            Some(b) => b.text,
            None => Seq::empty(),
        }
    }

    /// With the current match of `f` selected.
    pub open spec fn showing(self, f: FindState) -> TabsState {
        match (self.current(), f.current_match()) {
            (Some(b), Some((s, e))) => self.with_current(
                b.selected(least(s, b.text.len() as int), least(e, b.text.len() as int)),
            ),
            _ => self,
        }
    }
}

impl FindState {
    /// With its query brought into range and searched for in `t`, aimed at the
    /// first match from `pos` on.
    pub open spec fn refreshed(self, t: TabsState) -> FindState {
        let f = FindState { query: self.query.clamped(), ..self }.searched(t.text());
        f.aimed(f.origin)
    }

    /// The bar opened over `b`: what is selected becomes the query where it is
    /// on one line.
    pub open spec fn opened(self, b: BufferState) -> FindState {
        self.begun(b.cursor, b.selection_text())
    }

    /// With another query.
    pub open spec fn asking(self, query: Field) -> FindState {
        FindState { query, ..self }
    }
}

/// Whether `b` is `a` after the query became `q` and was searched for.
pub open spec fn searches(a: App, q: Field, b: App) -> bool {
    let f = a.find@.asking(q).refreshed(a.tabs@);
    &&& b == App { find: b.find, tabs: b.tabs, ..a }
    &&& b.find@ == f
    &&& b.tabs@ == a.tabs@.showing(f)
}

/// Whether `b` is `a` with `text` copied, where there is any.
pub open spec fn copies(a: App, text: Option<Seq<char>>, b: App) -> bool {
    match text {
        Some(t) => {
            &&& b == App {
                clipboard_text: b.clipboard_text,
                clipboard_dirty: true,
                ..a
            }
            &&& b.clipboard_text@ == t
        },
        None => b == a,
    }
}

/// A buffer with the matches replaced from the last one to the first.
pub open spec fn replaced_back(b: BufferState, m: Seq<(int, int)>, rep: Seq<char>) -> BufferState
    decreases m.len(),
{
    if m.len() == 0 {
        b
    } else {
        let n = b.text.len() as int;
        let (s, e) = m.last();
        replaced_back(b.selected(least(s, n), least(e, n)).pasted(rep), m.drop_last(), rep)
    }
}

/// Typing over a range that was selected puts the new text in its place.
pub proof fn lemma_typed_over(b: BufferState, s: int, e: int, ins: Seq<char>)
    requires
        0 <= s <= e <= b.text.len(),
    ensures
        b.selected(s, e).pasted(ins).text == spliced(b.text, s, e, ins),
        b.selected(s, e).pasted(ins).carets.len() == 0,
        b.selected(s, e).selections_ok(),
{
    let t = b.selected(s, e);
    let c = t.checkpointed(crate::buffer::state::EditKind::Insert);
    if s == e {
        assert(!c.primary().selecting());
    } else {
        assert(c.primary().selecting());
        assert(c.primary().start() == s && c.primary().end() == e);
        let d = c.selection_deleted();
        assert(spliced(d.text, s, s, ins) =~= spliced(b.text, s, e, ins));
    }
}

/// Typing over a range that was selected makes the text longer by no more than
/// what is typed.
pub proof fn lemma_typed_over_length(b: BufferState, s: int, e: int, ins: Seq<char>)
    requires
        0 <= s <= b.text.len(),
        0 <= e <= b.text.len(),
    ensures
        b.selected(s, e).pasted(ins).text.len() <= b.text.len() + ins.len(),
        b.selected(s, e).selections_ok(),
        b.selected(s, e).carets.len() == 0,
{
    let t = b.selected(s, e);
    let c = t.checkpointed(crate::buffer::state::EditKind::Insert);
    if s != e {
        assert(c.primary().selecting());
        let d = c.selection_deleted();
        assert(d.text == spliced(b.text, c.primary().start(), c.primary().end(), Seq::empty()));
    }
}

/// Put `rep` in the place of one match.
fn replace_match(b: &mut Buffer, x: usize, y: usize, rep: &str)
    requires
        old(b)@.wf(),
        fits_rope(old(b)@.text.len() + rep@.len()),
    ensures
        final(b)@ == old(b)@.selected(
            least(x as int, old(b)@.text.len() as int),
            least(y as int, old(b)@.text.len() as int),
        ).pasted(rep@),
        final(b)@.wf(),
{
    let ghost before = b@;
    proof {
        let n = before.text.len() as int;
        lemma_typed_over_length(before, least(x as int, n), least(y as int, n), rep@);
    }
    b.select_range(x, y);
    assert((b@.carets.len() + 1) * rep@.len() == rep@.len()) by (nonlinear_arith)
        requires
            b@.carets.len() == 0,
    ;
    b.insert_str(rep);
}

/// Replace the matches from the last one to the first, so that the places of
/// those still to come stay right.
fn replace_matches(b: &mut Buffer, m: &Vec<(usize, usize)>, rep: &str)
    requires
        old(b)@.wf(),
        fits_rope(old(b)@.text.len() + m@.len() * rep@.len()),
    ensures
        final(b)@ == replaced_back(old(b)@, ranges(m@), rep@),
        final(b)@.wf(),
{
    let ghost b0 = b@;
    let ghost all = ranges(m@);
    let mut k: usize = m.len();
    proof {
        assert(all.take(all.len() as int) =~= all);
        assert((all.len() - all.len()) * rep@.len() == 0) by (nonlinear_arith);
    }
    while k > 0
        invariant
            b@.wf(),
            k <= all.len(),
            all == ranges(m@),
            replaced_back(b0, all, rep@) == replaced_back(b@, all.take(k as int), rep@),
            b@.text.len() <= b0.text.len() + (all.len() - k) * rep@.len(),
            fits_rope(b0.text.len() + all.len() * rep@.len()),
        decreases k,
    {
        k = k - 1;
        let (x, y) = m[k];
        let ghost before = b@;
        proof {
            let n = before.text.len() as int;
            assert(all[k as int] == (x as int, y as int));
            assert(all.take(k + 1).last() == all[k as int]);
            assert(all.take(k + 1).drop_last() =~= all.take(k as int));
            lemma_typed_over_length(before, least(x as int, n), least(y as int, n), rep@);
            assert((all.len() - (k + 1)) * rep@.len() + rep@.len() == (all.len() - k) * rep@.len())
                by (nonlinear_arith);
            assert((all.len() - k) * rep@.len() <= all.len() * rep@.len()) by (nonlinear_arith)
                requires
                    0 <= k <= all.len(),
            ;
        }
        replace_match(b, x, y, rep);
    }
    assert(all.take(0) =~= Seq::empty());
}

/// Replacing the matches from the last one to the first leaves the text that
/// has each of them replaced.
pub proof fn lemma_replaced_back(b: BufferState, m: Seq<(int, int)>, rep: Seq<char>)
    requires
        apart_in(m, b.text.len() as int),
    ensures
        replaced_back(b, m, rep).text == replaced_all(b.text, m, rep),
    decreases m.len(),
{
    if m.len() > 0 {
        let (s, e) = m.last();
        let f = m.drop_last();
        assert(m[m.len() - 1] == m.last());
        lemma_typed_over(b, s, e, rep);
        let c = b.selected(s, e).pasted(rep);
        assert forall|i: int| 0 <= i < f.len() implies 0 <= (#[trigger] f[i]).0 <= f[i].1
            <= c.text.len() by {
            assert(m[i].1 <= m[m.len() - 1].0);
        }
        assert forall|i: int, j: int| 0 <= i < j < f.len() implies (#[trigger] f[i]).1 <= (
        #[trigger] f[j]).0 by {
            assert(m[i].1 <= m[j].0);
        }
        lemma_replaced_back(c, f, rep);
    }
}

impl App {
    /// Whether the matches are those of the query in the text that is showing.
    pub open spec fn find_is_current(self) -> bool {
        self.find@.matches == matches_in(self.tabs@.text(), self.find@.query.text)
    }

    /// Search for the query in the text that is showing.
    fn recompute_find(&mut self)
        requires
            old(self).wf(),
        ensures
            *final(self) == (App { find: final(self).find, ..*old(self) }),
            final(self).find@ == old(self).find@.searched(old(self).tabs@.text()),
            final(self).wf(),
    {
        let text = match self.tabs.active {
            Some(i) => {
                assert(self.tabs@.editors[i as int] == self.tabs.editors@[i as int]@);
                rope_chars(&self.tabs.editors[i].rope)
            },
            None => Vec::new(),
        };
        assert(text@ =~= self.tabs@.text());
        self.find.recompute_find(&text);
    }

    /// Select the current match.
    fn select_current_match(&mut self)
        requires
            old(self).wf(),
        ensures
            *final(self) == (App { tabs: final(self).tabs, ..*old(self) }),
            final(self).tabs@ == old(self).tabs@.showing(old(self).find@),
            final(self).wf(),
    {
        if let Some(i) = self.tabs.active {
            if self.find.current < self.find.matches.len() {
                let ghost s = self.tabs@;
                assert(s.editors[i as int] == self.tabs.editors@[i as int]@);
                let (a, e) = self.find.matches[self.find.current];
                let b = &mut self.tabs.editors[i];
                b.select_range(a, e);
                let ghost after = self.tabs.editors@[i as int]@;
                assert(self.tabs@ =~= s.with_editor(i as int, after));
                proof {
                    lemma_with_editor(s, i as int, after);
                }
            }
        }
    }

    /// Search for the query, and select the first match from where the bar was
    /// opened.
    pub fn find_changed(&mut self)
        requires
            old(self).wf(),
        ensures
            searches(*old(self), old(self).find@.query, *final(self)),
            final(self).wf(),
    {
        clamp(self.find.query.as_str(), &mut self.find.cursor, &mut self.find.anchor);
        self.recompute_find();
        let origin: usize = self.find.origin;
        self.find.aim(origin);
        self.select_current_match();
    }

    /// Open the bar over the text that is showing.
    pub fn find_open(&mut self)
        requires
            old(self).wf(),
            old(self).tabs@.sound(),
        ensures
            opens_find(*old(self), *final(self)),
            final(self).wf(),
    {
        if let Some(i) = self.tabs.active {
            let ghost s = self.tabs@;
            assert(s.editors[i as int] == self.tabs.editors@[i as int]@);
            let cursor: usize = self.tabs.editors[i].cursor;
            let text = self.tabs.editors[i].selected_text();
            self.find.begin(cursor, text);
            self.recompute_find();
            self.find.aim(cursor);
            self.select_current_match();
        }
    }

    /// Close the bar, leaving the match selected.
    pub fn find_close(&mut self)
        requires
            old(self).wf(),
        ensures
            *final(self) == (App { find: final(self).find, ..*old(self) }),
            final(self).find@ == old(self).find@.closed(),
            final(self).wf(),
    {
        self.find.find_close();
    }

    /// Type into the query.
    pub fn find_input(&mut self, c: char)
        requires
            old(self).wf(),
            old(self).find.cursor < usize::MAX,
        ensures
            searches(*old(self), old(self).find@.query.typed(seq![c]), *final(self)),
            final(self).wf(),
    {
        insert(&mut self.find.query, &mut self.find.cursor, &mut self.find.anchor, c);
        self.find_changed();
    }

    /// Delete from the query.
    pub fn find_backspace(&mut self)
        requires
            old(self).wf(),
        ensures
            searches(*old(self), old(self).find@.query.backspaced(), *final(self)),
            final(self).wf(),
    {
        backspace(&mut self.find.query, &mut self.find.cursor, &mut self.find.anchor);
        self.find_changed();
    }

    /// Copy what is selected in the query.
    pub fn find_copy(&mut self)
        requires
            old(self).wf(),
        ensures
            copies(*old(self), old(self).find@.query.selection_text(), *final(self)),
            final(self).wf(),
    {
        if let Some(t) = selected_text(
            self.find.query.as_str(),
            self.find.cursor,
            self.find.anchor,
        ) {
            self.set_clipboard(t);
        }
    }

    /// Cut what is selected in the query.
    pub fn find_cut(&mut self)
        requires
            old(self).wf(),
        ensures
            if old(self).find@.query.selecting() {
                &&& searches(
                    App {
                        clipboard_text: final(self).clipboard_text,
                        clipboard_dirty: true,
                        ..*old(self)
                    },
                    old(self).find@.query.cut(),
                    *final(self),
                )
                &&& Some(final(self).clipboard_text@) == old(self).find@.query.selection_text()
            } else {
                *final(self) == *old(self)
            },
            final(self).wf(),
    {
        self.find_copy();
        if self.find.cursor == self.find.anchor.unwrap_or(self.find.cursor) {
            return;
        }
        delete_selection(&mut self.find.query, &mut self.find.cursor, &mut self.find.anchor);
        self.find_changed();
    }

    /// Put what the clipboard holds into the query, on one line.
    pub fn find_paste(&mut self, system: Option<String>)
        requires
            old(self).wf(),
            old(self).find.cursor + flattened(old(self).clip(system)).len() <= usize::MAX,
        ensures
            ({
                let t = flattened(old(self).clip(system));
                if t.len() > 0 {
                    searches(*old(self), old(self).find@.query.typed(t), *final(self))
                } else {
                    *final(self) == *old(self)
                }
            }),
            final(self).wf(),
    {
        let t = one_line(self.get_clipboard(system));
        if char_len(t.as_str()) > 0 {
            insert_str(
                &mut self.find.query,
                &mut self.find.cursor,
                &mut self.find.anchor,
                t.as_str(),
            );
            self.find_changed();
        }
    }

    /// Go to the next match, round the text.
    pub fn find_next(&mut self)
        requires
            old(self).wf(),
        ensures
            goes_next(*old(self), *final(self)),
            final(self).wf(),
    {
        if self.find.matches.len() == 0 {
            return;
        }
        self.find.go_next();
        self.select_current_match();
    }

    /// Go to the previous match, round the text.
    pub fn find_prev(&mut self)
        requires
            old(self).wf(),
        ensures
            goes_prev(*old(self), *final(self)),
            final(self).wf(),
    {
        if self.find.matches.len() == 0 {
            return;
        }
        self.find.go_prev();
        self.select_current_match();
    }

    /// Show or hide the replacement.
    pub fn find_toggle_replace(&mut self)
        requires
            old(self).wf(),
        ensures
            toggles_replace(*old(self), *final(self)),
            final(self).wf(),
    {
        self.find.find_toggle_replace();
    }

    /// Move between the query and the replacement.
    pub fn find_toggle_focus(&mut self)
        requires
            old(self).wf(),
        ensures
            toggles_focus(*old(self), *final(self)),
            final(self).wf(),
    {
        self.find.find_toggle_focus();
    }

    /// Type into the replacement.
    pub fn replace_input(&mut self, c: char)
        requires
            old(self).wf(),
            old(self).find.replace_cursor < usize::MAX,
        ensures
            *final(self) == (App { find: final(self).find, ..*old(self) }),
            final(self).find@ == (FindState {
                replace: old(self).find@.replace.typed(seq![c]),
                ..old(self).find@
            }),
            final(self).wf(),
    {
        insert(
            &mut self.find.replace,
            &mut self.find.replace_cursor,
            &mut self.find.replace_anchor,
            c,
        );
    }

    /// Delete from the replacement.
    pub fn replace_backspace(&mut self)
        requires
            old(self).wf(),
        ensures
            *final(self) == (App { find: final(self).find, ..*old(self) }),
            final(self).find@ == (FindState {
                replace: old(self).find@.replace.backspaced(),
                ..old(self).find@
            }),
            final(self).wf(),
    {
        backspace(
            &mut self.find.replace,
            &mut self.find.replace_cursor,
            &mut self.find.replace_anchor,
        );
    }

    /// Copy what is selected in the replacement.
    pub fn replace_copy(&mut self)
        requires
            old(self).wf(),
        ensures
            copies(*old(self), old(self).find@.replace.selection_text(), *final(self)),
            final(self).wf(),
    {
        if let Some(t) = selected_text(
            self.find.replace.as_str(),
            self.find.replace_cursor,
            self.find.replace_anchor,
        ) {
            self.set_clipboard(t);
        }
    }

    /// Cut what is selected in the replacement.
    pub fn replace_cut(&mut self)
        requires
            old(self).wf(),
        ensures
            copies(
                App { find: final(self).find, ..*old(self) },
                old(self).find@.replace.selection_text(),
                *final(self),
            ),
            final(self).find@ == (FindState {
                replace: old(self).find@.replace.cut(),
                ..old(self).find@
            }),
            final(self).wf(),
    {
        self.replace_copy();
        delete_selection(
            &mut self.find.replace,
            &mut self.find.replace_cursor,
            &mut self.find.replace_anchor,
        );
    }

    /// Put what the clipboard holds into the replacement, on one line.
    pub fn replace_paste(&mut self, system: Option<String>)
        requires
            old(self).wf(),
            old(self).find.replace_cursor + flattened(old(self).clip(system)).len() <= usize::MAX,
        ensures
            *final(self) == (App { find: final(self).find, ..*old(self) }),
            ({
                let t = flattened(old(self).clip(system));
                final(self).find@ == if t.len() > 0 {
                    FindState { replace: old(self).find@.replace.typed(t), ..old(self).find@ }
                } else {
                    old(self).find@
                }
            }),
            final(self).wf(),
    {
        let t = one_line(self.get_clipboard(system));
        if char_len(t.as_str()) > 0 {
            insert_str(
                &mut self.find.replace,
                &mut self.find.replace_cursor,
                &mut self.find.replace_anchor,
                t.as_str(),
            );
        }
    }

    /// Replace the current match, and go on to the next one behind it.
    pub fn replace_current(&mut self)
        requires
            old(self).wf(),
            fits_rope(old(self).tabs@.text().len() + old(self).find@.replace.text.len()),
        ensures
            replaces_one(*old(self), *final(self)),
            final(self).wf(),
    {
        if self.find.matches.len() == 0 {
            return;
        }
        if let Some(i) = self.tabs.active {
            let ghost s = self.tabs@;
            assert(s.editors[i as int] == self.tabs.editors@[i as int]@);
            let (x, y) = self.find.matches[self.find.current];
            let b = &mut self.tabs.editors[i];
            replace_match(b, x, y, self.find.replace.as_str());
            let ghost after = self.tabs.editors@[i as int]@;
            assert(self.tabs@ =~= s.with_editor(i as int, after));
            proof {
                lemma_with_editor(s, i as int, after);
            }
            self.recompute_find();
            let pos: usize = self.tabs.editors[i].cursor;
            self.find.aim(pos);
            self.select_current_match();
        }
    }

    /// Replace every match, from the last one to the first, so that the places
    /// of those still to come stay right.
    pub fn replace_all(&mut self)
        requires
            old(self).wf(),
            fits_rope(
                old(self).tabs@.text().len() + old(self).find@.matches.len()
                    * old(self).find@.replace.text.len(),
            ),
        ensures
            replaces_all(*old(self), *final(self)),
            final(self).wf(),
    {
        if self.find.matches.len() == 0 {
            return;
        }
        if let Some(i) = self.tabs.active {
            let ghost s = self.tabs@;
            assert(s.editors[i as int] == self.tabs.editors@[i as int]@);
            let b = &mut self.tabs.editors[i];
            replace_matches(b, &self.find.matches, self.find.replace.as_str());
            let ghost after = self.tabs.editors@[i as int]@;
            assert(self.tabs@ =~= s.with_editor(i as int, after));
            proof {
                lemma_with_editor(s, i as int, after);
            }
            self.recompute_find();
        }
    }

    /// Do what a key in the query asks for beyond the query itself.
    fn follow_find(&mut self, e: Edit, system: Option<String>)
        requires
            old(self).wf(),
            e == Edit::Paste ==> old(self).find.cursor + flattened(old(self).clip(system)).len()
                <= usize::MAX,
        ensures
            find_edited(
                *old(self),
                old(self).find@.query,
                e,
                flattened(old(self).clip(system)),
                *final(self),
            ),
            final(self).wf(),
    {
        if e == Edit::Changed {
            self.find_changed();
            return;
        }
        if e == Edit::Copy {
            self.find_copy();
            return;
        }
        if e == Edit::Cut {
            self.find_cut();
            return;
        }
        if e == Edit::Paste {
            self.find_paste(system);
            return;
        }
    }

    /// A key in the query of the find bar. What it asks of the clipboard is done
    /// too.
    pub fn edit_find(&mut self, key: KeyEvent, ctrl: bool, alt: bool, shift: bool, system: Option<
        String,
    >)
        requires
            old(self).wf(),
            old(self).find.cursor < usize::MAX,
            old(self).find.cursor + flattened(old(self).clip(system)).len() <= usize::MAX,
        ensures
            ({
                let (q, e) = old(self).find@.query.after_key(key.code, ctrl, alt, shift);
                find_edited(*old(self), q, e, flattened(old(self).clip(system)), *final(self))
            }),
            final(self).wf(),
    {
        let ghost a = *self;
        let e = self.find.edit_query(key, ctrl, alt, shift);
        let ghost mid = *self;
        let ghost t = flattened(a.clip(system));
        proof {
            lemma_paste_leaves_the_field(a.find@.query, key.code, ctrl, alt, shift);
        }
        self.follow_find(e, system);
        proof {
            lemma_find_edited(a, mid, mid.find@.query, e, t, *self);
        }
    }

    /// Do what a key in the replacement asks for beyond the replacement itself.
    fn follow_replace(&mut self, e: Edit, system: Option<String>)
        requires
            old(self).wf(),
            e == Edit::Paste ==> old(self).find.replace_cursor + flattened(
                old(self).clip(system),
            ).len() <= usize::MAX,
        ensures
            replacement_edited(
                *old(self),
                old(self).find@.replace,
                e,
                flattened(old(self).clip(system)),
                *final(self),
            ),
            final(self).wf(),
    {
        if e == Edit::Copy {
            self.replace_copy();
            return;
        }
        if e == Edit::Cut {
            self.replace_cut();
            return;
        }
        if e == Edit::Paste {
            self.replace_paste(system);
            return;
        }
    }

    /// A key in the replacement. What it asks of the clipboard is done too.
    pub fn edit_replace(&mut self, key: KeyEvent, ctrl: bool, alt: bool, shift: bool, system: Option<
        String,
    >)
        requires
            old(self).wf(),
            old(self).find.replace_cursor < usize::MAX,
            old(self).find.replace_cursor + flattened(old(self).clip(system)).len() <= usize::MAX,
        ensures
            ({
                let (q, e) = old(self).find@.replace.after_key(key.code, ctrl, alt, shift);
                replacement_edited(
                    *old(self),
                    q,
                    e,
                    flattened(old(self).clip(system)),
                    *final(self),
                )
            }),
            final(self).wf(),
    {
        let ghost a = *self;
        let e = self.find.edit_replacement(key, ctrl, alt, shift);
        let ghost mid = *self;
        let ghost t = flattened(a.clip(system));
        proof {
            lemma_paste_leaves_the_field(a.find@.replace, key.code, ctrl, alt, shift);
        }
        self.follow_replace(e, system);
        proof {
            lemma_replacement_edited(a, mid, mid.find@.replace, e, t, *self);
        }
    }
}

/// Whether `b` is `a` after a key made `q` of the replacement and asked for `e`,
/// the clipboard holding `t`.
pub open spec fn replacement_edited(a: App, q: Field, e: Edit, t: Seq<char>, b: App) -> bool {
    &&& b.find@ == FindState {
        replace: match e {
            Edit::Cut => q.cut(),
            Edit::Paste => if t.len() > 0 {
                q.typed(t)
            } else {
                q
            },
            _ => q,
        },
        ..a.find@
    }
    &&& if e == Edit::Copy || e == Edit::Cut {
        copies(App { find: b.find, ..a }, q.selection_text(), b)
    } else {
        b == App { find: b.find, ..a }
    }
}

/// Whether `b` is `a` after a key made `q` of the query and asked for `e`, the
/// clipboard holding `t`.
pub open spec fn find_edited(a: App, q: Field, e: Edit, t: Seq<char>, b: App) -> bool {
    let still = b == (App { find: b.find, ..a }) && b.find@ == a.find@.asking(q);
    match e {
        Edit::Ignored | Edit::Moved => still,
        Edit::Changed => searches(a, q, b),
        Edit::Copy => {
            &&& copies(App { find: b.find, ..a }, q.selection_text(), b)
            &&& b.find@ == a.find@.asking(q)
        },
        Edit::Cut => if q.selecting() {
            &&& searches(
                App { clipboard_text: b.clipboard_text, clipboard_dirty: true, ..a },
                q.cut(),
                b,
            )
            &&& Some(b.clipboard_text@) == q.selection_text()
        } else {
            still
        },
        Edit::Paste => if t.len() > 0 {
            searches(a, q.typed(t), b)
        } else {
            still
        },
    }
}

/// A change of the replacement before what a key asks for is done counts as
/// part of it.
proof fn lemma_replacement_edited(a: App, mid: App, q: Field, e: Edit, t: Seq<char>, b: App)
    requires
        mid == (App { find: mid.find, ..a }),
        mid.find@ == (FindState { replace: q, ..a.find@ }),
        replacement_edited(mid, q, e, t, b),
    ensures
        replacement_edited(a, q, e, t, b),
{
}

/// A change of the query before what a key asks for is done counts as part of
/// it.
proof fn lemma_find_edited(a: App, mid: App, q: Field, e: Edit, t: Seq<char>, b: App)
    requires
        mid == (App { find: mid.find, ..a }),
        mid.find@ == a.find@.asking(q),
        find_edited(mid, q, e, t, b),
    ensures
        find_edited(a, q, e, t, b),
{
    assert(mid.find@.asking(q) == a.find@.asking(q));
    assert(mid.find@.asking(q.cut()) == a.find@.asking(q.cut()));
    assert(mid.find@.asking(q.typed(t)) == a.find@.asking(q.typed(t)));
}

/// After every match was replaced, the text is that with each of them replaced
/// and all else as it was.
pub proof fn law_replacing_all_replaces_every_match(a: App)
    requires
        a.wf(),
        a.find_is_current(),
        a.shown() is Some,
    ensures
        ({
            let b = a.shown()->0;
            let rep = a.find@.replace.text;
            replaced_back(b, a.find@.matches, rep).text == replaced_all(
                b.text,
                matches_in(b.text, a.find@.query.text),
                rep,
            )
        }),
{
    let b = a.shown()->0;
    law_matches_are_the_occurrences(b.text, a.find@.query.text, 0);
    lemma_replaced_back(b, a.find@.matches, a.find@.replace.text);
}

/// Whether opening the find bar makes `b` of `a`.
pub open spec fn opens_find(a: App, b: App) -> bool {
    match a.shown() {
        Some(cur) => {
            let f = a.find@.opened(cur).searched(cur.text);
            &&& b == (App {
                find: b.find,
                tabs: b.tabs,
                ..a
            })
            &&& b.find@ == f.aimed(cur.cursor)
            &&& b.tabs@ == a.tabs@.showing(f.aimed(cur.cursor))
        },
        None => b == a,
    }
}

/// Whether going to the next match makes `b` of `a`.
pub open spec fn goes_next(a: App, b: App) -> bool {
    if a.find@.matches.len() == 0 {
        b == a
    } else {
        &&& b == (App {
            find: b.find,
            tabs: b.tabs,
            ..a
        })
        &&& b.find@ == a.find@.next()
        &&& b.tabs@ == a.tabs@.showing(a.find@.next())
    }
}

/// Whether going to the match before makes `b` of `a`.
pub open spec fn goes_prev(a: App, b: App) -> bool {
    if a.find@.matches.len() == 0 {
        b == a
    } else {
        &&& b == (App {
            find: b.find,
            tabs: b.tabs,
            ..a
        })
        &&& b.find@ == a.find@.prev()
        &&& b.tabs@ == a.tabs@.showing(a.find@.prev())
    }
}

/// Whether showing or hiding the replacement makes `b` of `a`.
pub open spec fn toggles_replace(a: App, b: App) -> bool {
    &&& b == (App { find: b.find, ..a })
    &&& b.find@ == (FindState {
        replace_active: !a.find@.replace_active,
        replace_focus: !a.find@.replace_active,
        ..a.find@
    })
}

/// Whether moving between the two fields of the find bar makes `b` of `a`.
pub open spec fn toggles_focus(a: App, b: App) -> bool {
    &&& b == (App { find: b.find, ..a })
    &&& b.find@ == (FindState {
        replace_focus: if a.find@.replace_active {
            !a.find@.replace_focus
        } else {
            a.find@.replace_focus
        },
        ..a.find@
    })
}

/// Whether replacing the current match makes `b` of `a`.
pub open spec fn replaces_one(a: App, b: App) -> bool {
    match (a.shown(), a.find@.current_match()) {
        (Some(cur), Some((s, e))) => {
            let n = cur.text.len() as int;
            let c = cur.selected(least(s, n), least(e, n)).pasted(
                a.find@.replace.text,
            );
            let f = a.find@.searched(c.text).aimed(c.cursor);
            &&& b == (App {
                find: b.find,
                tabs: b.tabs,
                ..a
            })
            &&& b.find@ == f
            &&& b.tabs@ == a.tabs@.with_current(c).showing(f)
        },
        _ => b == a,
    }
}

/// Whether replacing every match makes `b` of `a`.
pub open spec fn replaces_all(a: App, b: App) -> bool {
    match a.shown() {
        Some(cur) => {
            let c = replaced_back(
                cur,
                a.find@.matches,
                a.find@.replace.text,
            );
            if a.find@.matches.len() == 0 {
                b == a
            } else {
                &&& b == (App {
                    find: b.find,
                    tabs: b.tabs,
                    ..a
                })
                &&& b.tabs@ == a.tabs@.with_current(c)
                &&& b.find@ == a.find@.searched(c.text)
            }
        },
        None => b == a,
    }
}

} // verus!
