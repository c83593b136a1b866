//! What holds of every buffer.

use crate::buffer::blocks::{lemma_indented_line, lemma_inside_line, lemma_rewritten_same};
use crate::buffer::carets::{lemma_merged, lemma_primary_from, lemma_sorted_by};
use crate::buffer::moves::{lemma_back_while, lemma_fwd_while};
use crate::buffer::state::{
    cursor_key, dedent_len, fwd_while, indented_text, indenting, merged, moved, outdented_text,
    outdenting, pad, primary_from, rewritten, run_of, sorted_by, spaces, start_key, unflagged,
    BufferState, CaretAt, EditKind, Flagged, Move, Plan, SnapshotState, UNDO_CAP,
};
use crate::chars::is_word;
use crate::lines::{
    lemma_line_around, lemma_line_of_monotone, lemma_line_start, lemma_line_start_past_end,
    lemma_line_starts_increase, line_len, line_of, line_start, line_text, line_total,
};
use vstd::prelude::*;

verus! {

/// Undo keeps a buffer well formed.
pub proof fn lemma_undone_wf(st: BufferState)
    requires
        st.wf(),
    ensures
        st.undone().wf(),
{
    if st.undo.len() > 0 {
        let r = st.undone();
        assert(st.undo.last().wf());
        assert forall|i: int| 0 <= i < r.undo.len() implies (#[trigger] r.undo[i]).wf() by {
            assert(r.undo[i] == st.undo[i]);
        }
        assert forall|i: int| 0 <= i < r.redo.len() implies (#[trigger] r.redo[i]).wf() by {
            if i < st.redo.len() {
                assert(r.redo[i] == st.redo[i]);
            }
        }
    }
}

/// Redo keeps a buffer well formed.
pub proof fn lemma_redone_wf(st: BufferState)
    requires
        st.wf(),
    ensures
        st.redone().wf(),
{
    if st.redo.len() > 0 {
        let r = st.redone();
        assert(st.redo.last().wf());
        assert forall|i: int| 0 <= i < r.redo.len() implies (#[trigger] r.redo[i]).wf() by {
            assert(r.redo[i] == st.redo[i]);
        }
        assert forall|i: int| 0 <= i < r.undo.len() implies (#[trigger] r.undo[i]).wf() by {
            if i < st.undo.len() {
                assert(r.undo[i] == st.undo[i]);
            }
        }
    }
}

/// Getting ready for an edit keeps a buffer well formed.
pub proof fn lemma_checkpointed_wf(st: BufferState, kind: EditKind)
    requires
        st.wf(),
    ensures
        st.checkpointed(kind).wf(),
{
    let r = st.checkpointed(kind);
    let grown = st.undo.push(st.snapshot());
    assert(st.snapshot().wf());
    assert forall|i: int| 0 <= i < r.undo.len() implies (#[trigger] r.undo[i]).wf() by {
        if st.coalesces(kind) {
            assert(r.undo[i] == st.undo[i]);
        } else {
            assert forall|k: int| 0 <= k < grown.len() implies (#[trigger] grown[k]).wf() by {}
            if grown.len() > UNDO_CAP {
                assert(r.undo[i] == grown[i + 1]);
            }
        }
    }
}

/// Typing at the one caret keeps a buffer well formed.
pub proof fn lemma_typed_wf(st: BufferState, ins: Seq<char>)
    requires
        st.wf(),
        st.carets.len() == 0,
        st.selection_ok(),
    ensures
        st.typed(ins).wf(),
{
    lemma_checkpointed_wf(st, EditKind::Insert);
    let cp = st.checkpointed(EditKind::Insert);
    let r = st.typed(ins);
    assert(r.undo == cp.undo);
    assert(r.redo == cp.redo);
}

/// An edit of a buffer.
pub enum Edit {
    /// Text typed at the one caret.
    Type(Seq<char>),
    /// The one selection deleted.
    Cut,
    /// Everything back to a position deleted at the one caret.
    BackTo(int),
    /// The character behind the one caret deleted.
    Forward,
    /// An edit at every caret.
    Many(Plan),
    /// The touched lines indented.
    Indent,
    /// The touched lines outdented.
    Outdent,
}

impl BufferState {
    /// The buffer after the edit.
    pub open spec fn edited(self, e: Edit) -> BufferState {
        match e {
            Edit::Type(t) => self.typed(t),
            Edit::Cut => self.selection_cut(),
            Edit::BackTo(p) => self.deleted_back_to(p),
            Edit::Forward => self.deleted_forward(),
            Edit::Many(p) => self.multi_edited(p),
            Edit::Indent => self.block_indented(),
            Edit::Outdent => self.block_outdented(),
        }
    }

    /// What kind of undo step the edit makes.
    pub open spec fn kind_of(self, e: Edit) -> EditKind {
        match e {
            Edit::Type(_) => EditKind::Insert,
            Edit::Many(p) => p.kind(),
            Edit::Indent => EditKind::Insert,
            _ => EditKind::Delete,
        }
    }

    /// Whether the edit has anything to do.
    pub open spec fn has_effect(self, e: Edit) -> bool {
        match e {
            Edit::Cut => self.primary().selecting(),
            Edit::Many(p) => self.edits(p),
            Edit::Outdent => exists|l: int|
                self.touched_lines().0 <= l <= self.touched_lines().1 && #[trigger] self.dedent_of(
                    l,
                ) != 0,
            _ => true,
        }
    }

    /// The state that undoing the edit brings back: the one before it.
    /// Indenting and outdenting give up the secondary carets first.
    pub open spec fn before(self, e: Edit) -> SnapshotState {
        if e is Indent || e is Outdent {
            SnapshotState { carets: Seq::empty(), ..self.snapshot() }
        } else {
            self.snapshot()
        }
    }

    /// Putting text in at the carets as an edit.
    pub open spec fn pasting(self, t: Seq<char>) -> Edit {
        if self.carets.len() > 0 {
            Edit::Many(Plan::Type(t))
        } else {
            Edit::Type(t)
        }
    }

    /// Characters typed one after another at the one caret.
    pub open spec fn typed_run(self, cs: Seq<char>) -> BufferState
        decreases cs.len(),
    {
        if cs.len() == 0 {
            self
        } else {
            self.typed_run(cs.drop_last()).typed(seq![cs.last()])
        }
    }
}

/// Undo brings back the text, the carets and the selections from before the
/// last edit, when that edit began an undo step of its own.
pub proof fn law_undo_reverts_an_edit(st: BufferState, e: Edit)
    requires
        st.wf(),
        st.has_effect(e),
        !st.coalesces(st.kind_of(e)),
    ensures
        st.edited(e).undo.len() > 0,
        st.edited(e).undone().snapshot() == st.before(e),
{
    let bare = BufferState { carets: Seq::empty(), ..st };
    let from = if e is Indent || e is Outdent {
        bare
    } else {
        st
    };
    let kind = st.kind_of(e);
    let r = st.edited(e);
    assert(r.undo == from.checkpointed(kind).undo);
    assert(r.undo.last() == from.snapshot());
    assert(r.undone().snapshot() =~= from.snapshot());
    assert(from.snapshot() =~= st.before(e));
}

proof fn lemma_pasting_edits(st: BufferState, t: Seq<char>)
    ensures
        st.pasted(t) == st.edited(st.pasting(t)),
        st.has_effect(st.pasting(t)),
        st.kind_of(st.pasting(t)) == EditKind::Insert,
        st.before(st.pasting(t)) == st.snapshot(),
{
    if st.carets.len() > 0 {
        lemma_sorted_by(st.flagged(), start_key(), |c: CaretAt| true);
        assert(st.by_start().len() > 0);
        assert(st.plans(Plan::Type(t))[0] is Some);
    }
}

/// Undo takes back an insertion, at one caret or at many, that did not join the
/// undo step before it: the text, the cursor and the anchor are as they were.
pub proof fn law_undo_reverts_an_insertion(st: BufferState, t: Seq<char>)
    requires
        st.wf(),
        !st.coalesces(EditKind::Insert),
    ensures
        st.pasted(t).undo.len() > 0,
        st.pasted(t).undone().text == st.text,
        st.pasted(t).undone().cursor == st.cursor,
        st.pasted(t).undone().anchor == st.anchor,
        st.pasted(t).undone().carets == st.carets,
{
    lemma_pasting_edits(st, t);
    law_undo_reverts_an_edit(st, st.pasting(t));
    assert(st.pasted(t).undone().snapshot() == st.snapshot());
}

/// Nothing can be redone after an insertion: a redo leaves the buffer as it is.
pub proof fn law_an_insertion_clears_redo(st: BufferState, t: Seq<char>)
    requires
        st.wf(),
    ensures
        st.pasted(t).redo.len() == 0,
        st.pasted(t).redone() == st.pasted(t),
{
    lemma_pasting_edits(st, t);
    law_an_edit_clears_redo(st, st.pasting(t));
}

/// Without a history undo leaves the buffer as it is, and so does redo when
/// nothing was undone.
pub proof fn law_no_history_nothing_undone(st: BufferState)
    ensures
        st.undo.len() == 0 ==> st.undone() == st,
        st.redo.len() == 0 ==> st.redone() == st,
{
}

/// Redo brings back exactly what undo took away: text, carets, selections and
/// history.
pub proof fn law_redo_reverts_an_undo(st: BufferState)
    requires
        st.wf(),
        st.undo.len() > 0,
    ensures
        st.undone().redo.len() > 0,
        st.undone().redone().snapshot() == st.snapshot(),
        st.undone().redone().undo == st.undo,
        st.undone().redone().redo == st.redo,
{
    let u = st.undone();
    let r = u.redone();
    assert(u.redo.last() == st.snapshot());
    assert(st.undo.last().wf());
    assert(u.snapshot() =~= st.undo.last());
    assert(r.snapshot() =~= st.snapshot());
    assert(r.undo =~= st.undo);
    assert(r.redo =~= st.redo);
}

/// Nothing can be redone after a new edit.
pub proof fn law_an_edit_clears_redo(st: BufferState, e: Edit)
    requires
        st.has_effect(e),
    ensures
        st.edited(e).redo.len() == 0,
        st.edited(e).redone() == st.edited(e),
{
}

/// After an edit, an undo or a redo a buffer counts as modified exactly when
/// its text differs from the saved one.
pub proof fn law_modified_means_different(st: BufferState, e: Edit)
    ensures
        st.has_effect(e) ==> st.edited(e).modified == (st.edited(e).text != st.saved),
        st.undo.len() > 0 ==> st.undone().modified == (st.undone().text != st.saved),
        st.redo.len() > 0 ==> st.redone().modified == (st.redone().text != st.saved),
{
}

proof fn lemma_typed_run(st: BufferState, cs: Seq<char>)
    requires
        st.wf(),
        st.carets.len() == 0,
        st.selection_ok(),
        !st.coalesces(EditKind::Insert),
    ensures
        st.typed_run(cs).wf(),
        st.typed_run(cs).carets.len() == 0,
        st.typed_run(cs).selection_ok(),
        cs.len() > 0 ==> st.typed_run(cs).undo == st.checkpointed(EditKind::Insert).undo,
        cs.len() > 0 ==> st.typed_run(cs).coalesces(EditKind::Insert),
    decreases cs.len(),
{
    if cs.len() > 0 {
        let b = st.typed_run(cs.drop_last());
        lemma_typed_run(st, cs.drop_last());
        lemma_typed_wf(b, seq![cs.last()]);
        let r = b.typed(seq![cs.last()]);
        assert(r.undo == b.checkpointed(EditKind::Insert).undo);
        assert(r.selection_ok()) by {
            let mid = b.checkpointed(EditKind::Insert).selection_deleted();
            assert(r.text.len() == mid.text.len() + 1);
            assert(r.anchor == mid.anchor);
        }
    }
}

/// A run of typing is one undo step: undo brings back what was before its
/// first character.
pub proof fn law_a_run_of_typing_undoes_together(st: BufferState, cs: Seq<char>)
    requires
        st.wf(),
        st.carets.len() == 0,
        st.selection_ok(),
        !st.coalesces(EditKind::Insert),
        cs.len() > 0,
    ensures
        st.typed_run(cs).undone().snapshot() == st.snapshot(),
{
    lemma_typed_run(st, cs);
    let r = st.typed_run(cs);
    assert(r.undo.last() == st.snapshot());
    assert(r.undone().snapshot() =~= st.snapshot());
}

/// Backspace takes back one typed character.
pub proof fn law_backspace_reverts_a_character(st: BufferState, c: char)
    requires
        st.wf(),
        st.carets.len() == 0,
        st.anchor is None,
    ensures
        ({
            let t = st.typed(seq![c]);
            let r = t.deleted_back_to(t.cursor - 1);
            &&& r.text == st.text
            &&& r.cursor == st.cursor
            &&& r.modified == (st.text != st.saved)
        }),
{
    let t = st.typed(seq![c]);
    let r = t.deleted_back_to(t.cursor - 1);
    assert(r.text =~= st.text);
}

/// A movement changes neither the text nor the history.
pub proof fn law_moving_leaves_the_text(st: BufferState, m: Move)
    ensures
        st.each_moved(m).text == st.text,
        st.each_moved(m).undo == st.undo,
        st.each_moved(m).redo == st.redo,
        st.each_moved(m).revision == st.revision,
        st.each_moved(m).modified == st.modified,
{
}

/// Carets that meet become one: at the start of the text only one is left.
pub proof fn law_meeting_carets_merge(st: BufferState)
    ensures
        st.each_moved(Move::DocStart).carets.len() == 0,
        st.each_moved(Move::DocStart).cursor == 0,
{
    if st.carets.len() > 0 {
        let all = st.flagged();
        let list = Seq::new(
            all.len(),
            |i: int|
                Flagged {
                    caret: moved(st.text, all[i].caret, Move::DocStart),
                    primary: all[i].primary,
                },
        );
        let at_start = |c: CaretAt| c.cursor == 0;
        lemma_sorted_by(list, cursor_key(), at_start);
        let sorted = sorted_by(list, cursor_key());
        lemma_merged(sorted, at_start);
        let m = merged(sorted);
        lemma_primary_from(m, 0);
        assert(m.len() == 1) by {
            if m.len() > 1 {
                assert(at_start(m[0].caret) && at_start(m[1].caret));
                assert(unflagged(m)[0].cursor < unflagged(m)[1].cursor);
            }
        }
        assert(at_start(m[primary_from(m, 0)].caret));
        assert(st.each_moved(Move::DocStart) == st.installed(list));
    }
}

/// Outdenting a block takes back what indenting it put in.
pub proof fn law_outdent_reverts_indent(s: Seq<char>, first: int, last: int)
    requires
        0 <= first <= last < line_total(s),
    ensures
        outdented_text(indented_text(s, first, last), first, last) == s,
{
    let t = indented_text(s, first, last);
    let total = line_total(s);
    lemma_indented_line(s, first, last, 0);
    lemma_outdent_lines(s, first, last, total);
    lemma_line_start_past_end(s, total);
    assert(s.take(line_start(s, total)) =~= s);
}

proof fn lemma_outdent_lines(s: Seq<char>, first: int, last: int, l: int)
    requires
        0 <= first <= last < line_total(s),
        0 <= l <= line_total(s),
    ensures
        0 <= line_start(s, l) <= s.len(),
        rewritten(indented_text(s, first, last), outdenting(first, last), 0, l) == s.take(
            line_start(s, l),
        ),
    decreases l,
{
    let t = indented_text(s, first, last);
    let f = outdenting(first, last);
    if l == 0 {
        lemma_line_start(s, 0);
        assert(s.take(0) =~= Seq::empty());
    } else {
        lemma_outdent_lines(s, first, last, l - 1);
        lemma_indented_line(s, first, last, l - 1);
        lemma_line_starts_increase(s, l - 1);
        let line = line_text(s, l - 1);
        let new_line = line_text(t, l - 1);
        if first <= l - 1 <= last {
            assert(new_line == pad() + line);
            lemma_pad_goes(line);
        }
        assert(f(l - 1, new_line) == line);
        assert(s.take(line_start(s, l - 1)) + line =~= s.take(line_start(s, l)));
    }
}

/// The spaces of one level are what outdenting takes from a line that starts with
/// them.
proof fn lemma_pad_goes(line: Seq<char>)
    ensures
        dedent_len(pad() + line) == 4,
        (pad() + line).skip(4) == line,
{
    let t = pad() + line;
    reveal_with_fuel(fwd_while, 5);
    assert(t[0] == ' ' && t[1] == ' ' && t[2] == ' ' && t[3] == ' ');
    lemma_fwd_while(t, 4, spaces());
    assert(t.skip(4) =~= line);
}

/// Where the touched lines start and how far they reach once they are indented.
proof fn lemma_indented_block(s: Seq<char>, first: int, last: int)
    requires
        0 <= first <= last < line_total(s),
    ensures
        ({
            let t = indented_text(s, first, last);
            let a = line_start(t, last);
            let c = a + line_len(t, last);
            &&& line_total(t) == line_total(s)
            &&& line_start(t, first) == line_start(s, first)
            &&& line_of(t, line_start(t, first)) == first
            &&& a + 4 <= c <= t.len()
            &&& line_of(t, c) == last || line_of(t, c) == last + 1 && line_start(t, last + 1) == c
            &&& line_start(t, first) <= a
        }),
{
    let t = indented_text(s, first, last);
    let a = line_start(t, last);
    let e = line_start(t, last + 1);
    let c = a + line_len(t, last);
    let line = line_text(s, last);
    lemma_indented_line(s, first, last, first);
    lemma_indented_line(s, first, last, last);
    lemma_line_start(s, 0);
    lemma_rewritten_same(s, indenting(first, last), 0, first);
    lemma_line_start(t, first);
    lemma_line_start(t, last);
    lemma_line_starts_increase(s, first);
    lemma_line_starts_increase(t, last);
    assert(line_text(t, last) == pad() + line);
    assert(e == a + 4 + line.len());
    assert(t[a + 3] == line_text(t, last)[3]);
    assert(a + 4 <= c);
    if line_start(t, first) > a {
        lemma_line_of_monotone(t, a, line_start(t, first));
    }
    if last + 1 < line_total(t) {
        lemma_line_start(t, last + 1);
        if c < e {
            lemma_inside_line(t, last, c);
        }
    } else {
        lemma_line_start_past_end(t, last + 1);
        lemma_inside_line(t, last, c);
    }
}

/// Outdenting right after indenting brings the text back, whatever was selected;
/// a bare caret is back at its place too.
pub proof fn law_outdenting_takes_back_an_indent(st: BufferState)
    requires
        st.wf(),
        st.selection_ok(),
    ensures
        st.block_indented().block_outdented().text == st.text,
        st.anchor is None ==> st.block_indented().block_outdented().cursor == st.cursor,
{
    let s = st.text;
    let (first, last) = st.touched_lines();
    let from = st.primary().start();
    let to = st.primary().end();
    lemma_line_around(s, from);
    lemma_line_around(s, to);
    lemma_line_of_monotone(s, from, to);
    let t = indented_text(s, first, last);
    let b = st.block_indented();
    assert(b.text == t);
    lemma_indented_block(s, first, last);
    lemma_indented_line(s, first, last, first);
    lemma_pad_goes(line_text(s, first));
    assert(b.dedent_of(first) == 4);
    law_outdent_reverts_indent(s, first, last);
    if !st.primary().selecting() {
        lemma_caret_stays_on_its_line(s, st.cursor);
    }
    assert(b.touched_lines() == (first, last));
    let r = b.block_outdented();
    assert(r.text == s);
}

/// Where a line that is indented alone starts and ends.
proof fn lemma_indented_row(s: Seq<char>, row: int)
    requires
        0 <= row < line_total(s),
    ensures
        ({
            let t = indented_text(s, row, row);
            &&& line_total(t) == line_total(s)
            &&& line_start(t, row) == line_start(s, row)
            &&& line_start(t, row + 1) == line_start(s, row + 1) + 4
            &&& row + 1 == line_total(s) ==> line_start(s, row + 1) == s.len() && t.len()
                == s.len() + 4
            &&& line_start(t, row + 1) <= t.len()
        }),
{
    let t = indented_text(s, row, row);
    lemma_indented_block(s, row, row);
    lemma_indented_line(s, row, row, row);
    lemma_line_starts_increase(s, row);
    lemma_line_starts_increase(t, row);
    assert(line_text(t, row).len() == 4 + line_text(s, row).len());
    if row + 1 == line_total(s) {
        lemma_line_start_past_end(s, row + 1);
        lemma_line_start_past_end(t, row + 1);
    }
}

/// A bare caret goes along with its line when that is indented.
proof fn lemma_caret_stays_on_its_line(s: Seq<char>, c: int)
    requires
        0 <= c <= s.len(),
    ensures
        ({
            let row = line_of(s, c);
            let t = indented_text(s, row, row);
            &&& line_of(t, c) == row
            &&& line_of(t, c + 4) == row
            &&& line_start(t, row) == line_start(s, row)
            &&& c + 4 <= t.len()
        }),
{
    let row = line_of(s, c);
    let t = indented_text(s, row, row);
    lemma_line_around(s, c);
    lemma_indented_row(s, row);
    if row + 1 < line_total(s) {
        lemma_line_start(s, row + 1);
        assert(c != line_start(s, row + 1));
    }
    lemma_inside_line(t, row, c + 4);
    if c > line_start(s, row) {
        lemma_inside_line(t, row, c);
    } else {
        lemma_line_start(t, row);
    }
}

/// What a double click selects is one run, of word characters or of others, and
/// never reaches over the end of a line.
pub proof fn law_a_clicked_word_stays_on_its_line(s: BufferState, i: int, k: int)
    requires
        s.wf(),
        0 <= i < s.text.len(),
        s.word_selected(i).primary().start() <= k < s.word_selected(i).primary().end(),
    ensures
        s.text[k] != '\n',
        is_word(s.text[k]) == is_word(s.text[i]),
{
    let run = run_of(is_word(s.text[i]));
    lemma_back_while(s.text, i, run);
    lemma_fwd_while(s.text, i, run);
    assert(run(s.text[k]));
}

} // verus!
