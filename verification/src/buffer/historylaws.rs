//! How edits fall into undo steps.

use crate::buffer::carets::lemma_sorted_by;
use crate::buffer::changes::{high, low};
use crate::buffer::laws::{lemma_redone_wf, lemma_undone_wf};
use crate::buffer::state::{start_key, BufferState, CaretAt, EditKind, Plan};
use vstd::prelude::*;

verus! {

/// How an edit of one kind that led from `a` to `b` is undone. After an edit of
/// another kind, or with the cursor elsewhere than it was left, it began a step:
/// undo brings back `a`, and a second undo what was before that. Otherwise it
/// joined the step before: one undo takes back both. Nothing is left to redo, and
/// a further edit of the kind at the cursor would join.
pub open spec fn undoes_as(a: BufferState, kind: EditKind, b: BufferState) -> bool {
    &&& b.undo.len() > 0
    &&& b.redone() == b
    &&& b.last_kind == Some(kind)
    &&& b.last_edit_cursor == Some(b.cursor)
    &&& a.last_kind != Some(kind) || a.last_edit_cursor != Some(a.cursor) || a.undo.len() == 0 ==> {
        &&& b.undone().snapshot() == a.snapshot()
        &&& a.undo.len() > 0 ==> b.undone().undone().snapshot() == a.undone().snapshot()
        &&& b.undo.len() == a.undo.len() + 1 || (a.undo.len() >= 1000 && b.undo.len()
            == a.undo.len())
    }
    &&& a.last_kind == Some(kind) && a.last_edit_cursor == Some(a.cursor) && a.undo.len() > 0 ==> {
        &&& b.undone().snapshot() == a.undone().snapshot()
        &&& b.undo == a.undo
    }
}

proof fn lemma_undoes_as(a: BufferState, kind: EditKind, b: BufferState)
    requires
        a.wf(),
        b.undo == a.checkpointed(kind).undo,
        b.redo.len() == 0,
        b.last_kind == Some(kind),
        b.last_edit_cursor == Some(b.cursor),
    ensures
        undoes_as(a, kind, b),
{
    let grown = a.undo.push(a.snapshot());
    if a.coalesces(kind) {
        assert(b.undo.last().wf());
        assert(b.undone().snapshot() =~= a.undone().snapshot());
    } else {
        assert(b.undo.last() == a.snapshot());
        assert(b.undone().snapshot() =~= a.snapshot());
        if a.undo.len() > 0 {
            let n = b.undo.len();
            assert(b.undo[n - 2] == a.undo.last());
            assert(b.undone().undo.last() == a.undo.last());
            assert(a.undo.last().wf());
            assert(b.undone().undone().snapshot() =~= a.undone().snapshot());
        }
    }
}

/// Typing and pasting, at one caret or at many, are one kind of edit and the
/// deletions the other. An edit begins an undo step of its own after one of the
/// other kind, or where the cursor is not where the last edit left it; the rest
/// join. So undoing a deletion brings back the text that was typed before it.
pub proof fn law_another_kind_begins_a_step(st: BufferState, t: Seq<char>)
    requires
        st.wf(),
    ensures
        undoes_as(st, EditKind::Insert, st.pasted(t)),
        st.backspaced() != st ==> undoes_as(st, EditKind::Delete, st.backspaced()),
        st.deleted_ahead() != st ==> undoes_as(st, EditKind::Delete, st.deleted_ahead()),
        st.word_deleted() != st ==> undoes_as(st, EditKind::Delete, st.word_deleted()),
        st.line_start_deleted() != st ==> undoes_as(st, EditKind::Delete, st.line_start_deleted()),
        st.carets.len() > 0 && st.multi_edited(Plan::Cut) != st ==> undoes_as(
            st,
            EditKind::Delete,
            st.multi_edited(Plan::Cut),
        ),
        st.carets.len() == 0 ==> undoes_as(st, EditKind::Delete, st.selection_cut()),
{
    if st.carets.len() > 0 {
        lemma_sorted_by(st.flagged(), start_key(), |c: CaretAt| true);
        assert(st.by_start().len() > 0);
        assert(st.plans(Plan::Type(t))[0] is Some);
        assert(st.edits(Plan::Type(t)));
        lemma_undoes_as(st, EditKind::Insert, st.pasted(t));
        if st.edits(Plan::Backspace) {
            lemma_undoes_as(st, EditKind::Delete, st.backspaced());
        }
        if st.edits(Plan::Delete) {
            lemma_undoes_as(st, EditKind::Delete, st.deleted_ahead());
        }
        if st.edits(Plan::WordLeft) {
            lemma_undoes_as(st, EditKind::Delete, st.word_deleted());
        }
        if st.edits(Plan::LineStart) {
            lemma_undoes_as(st, EditKind::Delete, st.line_start_deleted());
        }
        if st.edits(Plan::Cut) {
            lemma_undoes_as(st, EditKind::Delete, st.multi_edited(Plan::Cut));
        }
    } else {
        lemma_undoes_as(st, EditKind::Insert, st.pasted(t));
        lemma_undoes_as(st, EditKind::Delete, st.selection_cut());
        if st.backspaced() != st {
            lemma_undoes_as(st, EditKind::Delete, st.backspaced());
        }
        if st.deleted_ahead() != st {
            lemma_undoes_as(st, EditKind::Delete, st.deleted_ahead());
        }
        if st.word_deleted() != st {
            lemma_undoes_as(st, EditKind::Delete, st.word_deleted());
        }
        if st.line_start_deleted() != st {
            lemma_undoes_as(st, EditKind::Delete, st.line_start_deleted());
        }
    }
}

/// Indenting undoes like typing and outdenting like a deletion, but for the extra
/// carets, which both give up first.
pub proof fn law_indenting_undoes_like_typing(st: BufferState)
    requires
        st.wf(),
    ensures
        ({
            let bare = BufferState { carets: Seq::empty(), ..st };
            &&& undoes_as(bare, EditKind::Insert, st.block_indented())
            &&& st.block_outdented() != bare ==> undoes_as(
                bare,
                EditKind::Delete,
                st.block_outdented(),
            )
        }),
{
    let bare = BufferState { carets: Seq::empty(), ..st };
    lemma_undoes_as(bare, EditKind::Insert, st.block_indented());
    if st.block_outdented() != bare {
        lemma_undoes_as(bare, EditKind::Delete, st.block_outdented());
    }
}

/// After undo or redo the next edit begins a step: undoing it brings back exactly
/// what undo or redo had left.
pub proof fn law_undo_and_redo_end_a_step(st: BufferState, t: Seq<char>)
    requires
        st.wf(),
    ensures
        st.undo.len() > 0 ==> st.undone().pasted(t).undone().snapshot() == st.undone().snapshot(),
        st.redo.len() > 0 ==> st.redone().pasted(t).undone().snapshot() == st.redone().snapshot(),
        st.undo.len() > 0 && st.undone().backspaced() != st.undone()
            ==> st.undone().backspaced().undone().snapshot() == st.undone().snapshot(),
        st.redo.len() > 0 && st.redone().backspaced() != st.redone()
            ==> st.redone().backspaced().undone().snapshot() == st.redone().snapshot(),
{
    lemma_undone_wf(st);
    lemma_redone_wf(st);
    law_another_kind_begins_a_step(st.undone(), t);
    law_another_kind_begins_a_step(st.redone(), t);
}

/// Undoing a deletion brings back the text that was typed before it, and undoing
/// once more takes that back too.
pub proof fn law_a_deletion_is_undone_apart_from_typing(st: BufferState, t: Seq<char>)
    requires
        st.wf(),
        st.pasted(t).wf(),
        st.last_kind != Some(EditKind::Insert) || st.last_edit_cursor != Some(st.cursor),
        st.pasted(t).backspaced() != st.pasted(t),
    ensures
        st.pasted(t).backspaced().undone().snapshot() == st.pasted(t).snapshot(),
        st.pasted(t).backspaced().undone().undone().snapshot() == st.snapshot(),
{
    law_another_kind_begins_a_step(st, t);
    law_another_kind_begins_a_step(st.pasted(t), t);
}

/// An edit counts as a change of the text, and so do undo and redo: the number of
/// the text is another one afterwards, so that nothing worked out before is taken
/// for it.
pub proof fn law_an_edit_counts_as_a_change(st: BufferState, t: Seq<char>)
    requires
        st.carets.len() == 0,
    ensures
        st.pasted(t).revision != st.revision,
        st.selection_cut().text != st.text ==> st.selection_cut().revision != st.revision,
        st.backspaced() != st && !(low(st.primary()) < high(st.primary()))
            ==> st.backspaced().revision != st.revision,
        st.undo.len() > 0 ==> st.undone().revision != st.revision,
        st.redo.len() > 0 ==> st.redone().revision != st.revision,
{
}

} // verus!
