//! Where movements lead.

use crate::buffer::changes::{leads, lemma_installed, stands};
use crate::buffer::editlaws::{no_word_ends, no_word_starts, word_ends, word_starts, wordy};
use crate::buffer::moves::{lemma_back_while, lemma_fwd_while};
use crate::buffer::pointlaws::{column_on, lemma_column};
use crate::buffer::state::{
    back_while, fwd_while, moved, separators, words, BufferState, CaretAt,
    Flagged, Move,
};
use crate::lines::{
    col_of, lemma_line_around, lemma_line_start, lemma_line_start_past_end,
    lemma_line_starts_increase, line_len, line_of, line_start, line_total,
};
use vstd::prelude::*;

verus! {

/// Left and Right go to the neighbouring place, and to the ends of the text there
/// is nothing to go beyond. The start and the end of the text are its first and its
/// last place. None of it touches the anchor, and vertical movement will aim for
/// the new column.
pub proof fn law_left_and_right_go_one_place(s: Seq<char>, c: CaretAt)
    requires
        0 <= c.cursor <= s.len(),
    ensures
        c.cursor > 0 ==> moved(s, c, Move::Left).cursor == c.cursor - 1,
        c.cursor == 0 ==> moved(s, c, Move::Left) == c,
        c.cursor < s.len() ==> moved(s, c, Move::Right).cursor == c.cursor + 1,
        c.cursor == s.len() ==> moved(s, c, Move::Right) == c,
        c.cursor > 0 ==> moved(s, c, Move::Left).goal_col == col_of(s, c.cursor - 1),
        c.cursor < s.len() ==> moved(s, c, Move::Right).goal_col == col_of(s, c.cursor + 1),
        moved(s, c, Move::DocStart).cursor == 0,
        moved(s, c, Move::DocStart).goal_col == 0,
        moved(s, c, Move::DocEnd).cursor == s.len(),
        moved(s, c, Move::DocEnd).goal_col == col_of(s, s.len() as int),
        forall|m: Move| #[trigger] moved(s, c, m).anchor == c.anchor,
{
}

/// Home goes to the first place of the caret's line. End goes to the last one: what
/// stands there ends the line, or the text ends.
pub proof fn law_home_and_end_stay_on_the_line(s: Seq<char>, c: CaretAt)
    requires
        0 <= c.cursor <= s.len(),
    ensures
        ({
            let row = line_of(s, c.cursor);
            let h = moved(s, c, Move::Home);
            let e = moved(s, c, Move::End);
            &&& 0 <= h.cursor <= c.cursor
            &&& line_of(s, h.cursor) == row
            &&& h.cursor == 0 || line_of(s, h.cursor - 1) < row
            &&& h.goal_col == 0
            &&& h.cursor <= e.cursor <= s.len()
            &&& e.goal_col == col_of(s, e.cursor)
            &&& row + 1 == line_total(s) ==> e.cursor == s.len() || s[s.len() - 1] == '\n'
            &&& e.cursor < s.len() ==> s[e.cursor] == '\n' || (s[e.cursor] == '\r' && e.cursor + 1
                < s.len() && s[e.cursor + 1] == '\n') || line_of(s, e.cursor) == row + 1
            &&& e.cursor < s.len() && column_on(s, row, line_len(s, row)) ==> line_of(s, e.cursor)
                == row
        }),
{
    let row = line_of(s, c.cursor);
    lemma_line_around(s, c.cursor);
    lemma_line_start(s, row);
    lemma_line_starts_increase(s, row);
    let h = line_start(s, row);
    let e = moved(s, c, Move::End).cursor;
    if h > 0 {
        assert(line_of(s, h - 1) < row);
    }
    if row + 1 < line_total(s) {
        lemma_line_start(s, row + 1);
    } else {
        lemma_line_start_past_end(s, row + 1);
    }
    if column_on(s, row, line_len(s, row)) {
        lemma_column(s, row, line_len(s, row));
    }
}

/// Up and Down go to the line before and the line behind, to the column that the
/// caret aims for or to the end of a shorter line; the column aimed for stays. On
/// the first line Up goes to the start of the text, and on the last Down goes to
/// the end of the line.
pub proof fn law_up_and_down_go_one_line(s: Seq<char>, c: CaretAt)
    requires
        0 <= c.cursor <= s.len(),
        0 <= c.goal_col,
    ensures
        ({
            let row = line_of(s, c.cursor);
            let u = moved(s, c, Move::Up);
            let d = moved(s, c, Move::Down);
            &&& row == 0 ==> u.cursor == 0 && u.goal_col == 0
            &&& row > 0 ==> u.goal_col == c.goal_col
            &&& row > 0 && column_on(s, row - 1, c.goal_col) ==> {
                &&& line_of(s, u.cursor) == row - 1
                &&& col_of(s, u.cursor) == c.goal_col || (col_of(s, u.cursor) == line_len(
                    s,
                    row - 1,
                ) && line_len(s, row - 1) < c.goal_col)
            }
            &&& row + 1 == line_total(s) ==> d == moved(s, c, Move::End)
            &&& row + 1 < line_total(s) ==> d.goal_col == c.goal_col
            &&& row + 1 < line_total(s) && column_on(s, row + 1, c.goal_col) ==> {
                &&& line_of(s, d.cursor) == row + 1
                &&& col_of(s, d.cursor) == c.goal_col || (col_of(s, d.cursor) == line_len(
                    s,
                    row + 1,
                ) && line_len(s, row + 1) < c.goal_col)
            }
        }),
{
    let row = line_of(s, c.cursor);
    lemma_line_around(s, c.cursor);
    if row > 0 && column_on(s, row - 1, c.goal_col) {
        lemma_column(s, row - 1, c.goal_col);
    }
    if row + 1 < line_total(s) && column_on(s, row + 1, c.goal_col) {
        lemma_column(s, row + 1, c.goal_col);
    }
}

/// Left by words goes back to the nearest start of a word, and Right by words on to
/// the nearest end of one; where there is none they go to the ends of the text.
pub proof fn law_words_are_gone_over_one_by_one(s: Seq<char>, c: CaretAt)
    requires
        0 <= c.cursor <= s.len(),
    ensures
        ({
            let l = moved(s, c, Move::WordLeft);
            let r = moved(s, c, Move::WordRight);
            &&& 0 <= l.cursor <= c.cursor <= r.cursor <= s.len()
            &&& l.cursor == 0 || (l.cursor < c.cursor && word_starts(s, l.cursor))
            &&& no_word_starts(s, l.cursor, c.cursor)
            &&& r.cursor == s.len() || (r.cursor > c.cursor && word_ends(s, r.cursor))
            &&& no_word_ends(s, c.cursor, r.cursor)
            &&& l.goal_col == col_of(s, l.cursor)
            &&& r.goal_col == col_of(s, r.cursor)
        }),
{
    let p = c.cursor;
    let m = back_while(s, p, separators());
    let l = back_while(s, m, words());
    lemma_back_while(s, p, separators());
    lemma_back_while(s, m, words());
    assert forall|k: int| l <= k < m implies wordy(#[trigger] s[k]) by {
        assert(words()(s[k]));
    }
    assert forall|k: int| m <= k < p implies !wordy(#[trigger] s[k]) by {
        assert(separators()(s[k]));
    }
    if m > 0 {
        assert(!separators()(s[m - 1]));
        assert(wordy(s[m - 1]));
    }
    if l > 0 {
        assert(!words()(s[l - 1]));
        assert(l < m);
        assert(word_starts(s, l));
    }
    assert forall|k: int| l < k < p implies !#[trigger] word_starts(s, k) by {
        if k < m {
            assert(wordy(s[k - 1]));
        }
    }
    let n = fwd_while(s, p, separators());
    let r = fwd_while(s, n, words());
    lemma_fwd_while(s, p, separators());
    lemma_fwd_while(s, n, words());
    assert forall|k: int| n <= k < r implies wordy(#[trigger] s[k]) by {
        assert(words()(s[k]));
    }
    assert forall|k: int| p <= k < n implies !wordy(#[trigger] s[k]) by {
        assert(separators()(s[k]));
    }
    if n < s.len() {
        assert(!separators()(s[n]));
        assert(wordy(s[n]));
    }
    if r < s.len() {
        assert(!words()(s[r]));
        assert(n < r);
        assert(word_ends(s, r));
    }
    assert forall|k: int| p < k < r implies !#[trigger] word_ends(s, k) by {
        if k <= n {
            assert(!wordy(s[k - 1]));
        } else {
            assert(wordy(s[k]));
        }
    }
}

/// What many carets come to when they move.
proof fn lemma_all_moved(st: BufferState, m: Move, ok: spec_fn(CaretAt) -> bool)
    requires
        forall|c: CaretAt| #[trigger] st.has_caret(c) ==> ok(moved(st.text, c, m)),
    ensures
        st.each_moved(m).cursor == moved(st.text, st.primary(), m).cursor,
        st.each_moved(m).text == st.text,
        forall|p: int| #[trigger]
            st.each_moved(m).caret_stands(p) == exists|c: CaretAt| #[trigger]
                st.has_caret(c) && moved(st.text, c, m).cursor == p,
        forall|c: CaretAt| #[trigger] st.each_moved(m).has_caret(c) ==> ok(c),
{
    let s = st.text;
    let b = st.each_moved(m);
    assert(st.has_caret(st.primary()));
    if st.carets.len() == 0 {
        assert(b.has_caret(b.primary()));
        assert forall|p: int| #[trigger] b.caret_stands(p) == exists|c: CaretAt| #[trigger]
            st.has_caret(c) && moved(s, c, m).cursor == p by {
            if b.caret_stands(p) {
                assert(p == b.cursor);
                assert(st.has_caret(st.primary()) && moved(s, st.primary(), m).cursor == p);
            }
        }
    } else {
        let all = st.flagged();
        let list = Seq::new(
            all.len(),
            |i: int|
                Flagged { caret: moved(s, all[i].caret, m), primary: all[i].primary },
        );
        let q = moved(s, st.primary(), m).cursor;
        assert(list[0].primary && list[0].caret.cursor == q);
        assert forall|p: int| #[trigger] leads(list, p) implies p == q by {
            let k = choose|k: int|
                0 <= k < list.len() && (#[trigger] list[k]).caret.cursor == p && list[k].primary;
            if k > 0 {
                assert(!all[k].primary);
            }
        }
        assert forall|k: int| 0 <= k < list.len() implies ok((#[trigger] list[k]).caret) by {
            if k > 0 {
                assert(all[k].caret == st.carets[k - 1]);
            }
            assert(st.has_caret(all[k].caret));
        }
        lemma_installed(st, list, q, ok);
        assert(b == st.installed(list));
        assert forall|p: int| #[trigger] b.caret_stands(p) == exists|c: CaretAt| #[trigger]
            st.has_caret(c) && moved(s, c, m).cursor == p by {
            if stands(list, p) {
                let k = choose|k: int| 0 <= k < list.len() && (#[trigger] list[k]).caret.cursor == p;
                let c = all[k].caret;
                if k > 0 {
                    assert(c == st.carets[k - 1]);
                    assert(st.carets.contains(c));
                }
                assert(st.has_caret(c) && moved(s, c, m).cursor == p);
            }
            if exists|c: CaretAt| #[trigger] st.has_caret(c) && moved(s, c, m).cursor == p {
                let c = choose|c: CaretAt| #[trigger]
                    st.has_caret(c) && moved(s, c, m).cursor == p;
                let k = if c == st.primary() {
                    0
                } else {
                    1 + choose|k: int| 0 <= k < st.carets.len() && st.carets[k] == c
                };
                assert(all[k].caret == c);
                assert(list[k].caret.cursor == p);
            }
        }
    }
}

/// A movement moves every caret: carets stand exactly where it leads them, and the
/// primary one is still the primary one.
pub proof fn law_every_caret_moves(st: BufferState, m: Move)
    ensures
        st.each_moved(m).cursor == moved(st.text, st.primary(), m).cursor,
        forall|p: int| #[trigger]
            st.each_moved(m).caret_stands(p) == exists|c: CaretAt| #[trigger]
                st.has_caret(c) && moved(st.text, c, m).cursor == p,
{
    lemma_all_moved(st, m, |c: CaretAt| true);
}

/// A movement that selects keeps the fixed end of each selection, or fixes it
/// where the caret was; after one that does not, nothing is selected any more. The
/// carets go where the movement leads them either way.
pub proof fn law_a_movement_extends_the_selection(st: BufferState, m: Move, select: bool)
    ensures
        ({
            let b = if select {
                st.anchored().each_moved(m)
            } else {
                st.deselected().each_moved(m)
            };
            &&& b.cursor == moved(st.text, st.primary(), m).cursor
            &&& b.text == st.text
            &&& st.carets.len() == 0 ==> {
                &&& b.carets.len() == 0
                &&& b.anchor == if !select {
                    None
                } else if st.anchor is Some {
                    st.anchor
                } else {
                    Some(st.cursor)
                }
            }
            &&& forall|c: CaretAt| #[trigger] b.has_caret(c) ==> c.anchor is Some == select
        }),
{
    let f = if select {
        st.anchored()
    } else {
        st.deselected()
    };
    let ok = |c: CaretAt| c.anchor is Some == select;
    lemma_marked(st, select);
    assert forall|c: CaretAt| #[trigger] f.has_caret(c) implies ok(moved(st.text, c, m)) by {
        assert(c.anchor is Some == select);
        lemma_anchor_kept(st.text, c, m);
    }
    lemma_all_moved(f, m, ok);
    lemma_moved_alike(st.text, f.primary(), st.primary(), m);
    lemma_moved_alone(f, m);
    let b = f.each_moved(m);
    assert forall|c: CaretAt| #[trigger] b.has_caret(c) implies c.anchor is Some == select by {
        assert(ok(c));
    }
}

/// What marking or letting go does to the carets.
proof fn lemma_marked(st: BufferState, select: bool)
    ensures
        ({
            let f = if select {
                st.anchored()
            } else {
                st.deselected()
            };
            &&& f.text == st.text
            &&& f.cursor == st.cursor
            &&& f.goal_col == st.goal_col
            &&& f.carets.len() == st.carets.len()
            &&& f.anchor == if !select {
                None
            } else if st.anchor is Some {
                st.anchor
            } else {
                Some(st.cursor)
            }
            &&& forall|c: CaretAt| #[trigger] f.has_caret(c) ==> c.anchor is Some == select
        }),
{
    let f = if select {
        st.anchored()
    } else {
        st.deselected()
    };
    assert forall|c: CaretAt| #[trigger] f.has_caret(c) implies c.anchor is Some == select by {
        if c != f.primary() {
            let k = choose|k: int| 0 <= k < f.carets.len() && f.carets[k] == c;
            assert(f.carets[k].anchor is Some == select);
        }
    }
}

proof fn lemma_anchor_kept(s: Seq<char>, c: CaretAt, m: Move)
    ensures
        moved(s, c, m).anchor == c.anchor,
{
}

proof fn lemma_moved_alone(st: BufferState, m: Move)
    ensures
        st.carets.len() == 0 ==> st.each_moved(m).carets.len() == 0 && st.each_moved(m).anchor
            == st.anchor,
{
    lemma_anchor_kept(st.text, st.primary(), m);
}

/// The selection does not matter to where a movement leads.
proof fn lemma_moved_alike(s: Seq<char>, a: CaretAt, b: CaretAt, m: Move)
    requires
        a.cursor == b.cursor,
        a.goal_col == b.goal_col,
    ensures
        moved(s, a, m).cursor == moved(s, b, m).cursor,
{
}

} // verus!
