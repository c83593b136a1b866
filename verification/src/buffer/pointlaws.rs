//! Where clicks, drags and scrolling lead.

use crate::buffer::blocks::lemma_inside_line;
use crate::buffer::editlaws::wordy;
use crate::buffer::moves::{lemma_back_while, lemma_fwd_while};
use crate::buffer::state::{run_of, BufferState, CaretAt};
use crate::lines::{
    col_of, lemma_line_around, lemma_line_of_monotone, lemma_line_start,
    lemma_line_start_past_end, lemma_line_starts_increase, line_len, line_of, line_start,
    line_total,
};
use vstd::prelude::*;

verus! {

/// Whether the place `k` characters into line `l`, or the end of its text where
/// the line is shorter, is on that line. Only where the line ends in another break
/// than a line feed is the end of its text the start of the next one.
pub open spec fn column_on(s: Seq<char>, l: int, k: int) -> bool {
    l + 1 == line_total(s) || s[line_start(s, l + 1) - 1] == '\n' || k < line_start(s, l + 1)
        - line_start(s, l)
}

/// Where such a place is.
pub proof fn lemma_column(s: Seq<char>, l: int, k: int)
    requires
        0 <= l < line_total(s),
        0 <= k,
        column_on(s, l, k),
    ensures
        ({
            let n = if k <= line_len(s, l) {
                k
            } else {
                line_len(s, l)
            };
            &&& 0 <= line_start(s, l) <= line_start(s, l) + n <= s.len()
            &&& line_of(s, line_start(s, l) + n) == l
            &&& col_of(s, line_start(s, l) + n) == n
        }),
{
    let n = if k <= line_len(s, l) {
        k
    } else {
        line_len(s, l)
    };
    let a = line_start(s, l);
    lemma_line_start(s, l);
    lemma_line_starts_increase(s, l);
    if n > 0 {
        if l + 1 == line_total(s) {
            lemma_line_start_past_end(s, l + 1);
        }
        lemma_inside_line(s, l, a + n);
    }
}

/// A click on a row of the view puts the caret on the line that the row shows, at
/// the column that was clicked or at the line's end; below the text, on the last
/// line. The view stays where it is. A plain click leaves one caret that selects
/// nothing, a drag keeps the other end of the selection, and a click with Alt adds
/// a caret and keeps the old ones.
pub proof fn law_a_click_lands_on_the_line_shown(
    st: BufferState,
    row: int,
    col: int,
    keep: bool,
    alt: bool,
)
    requires
        st.wf(),
        0 <= st.scroll_row,
        0 <= row,
        0 <= col,
    ensures
        ({
            let b = st.pointed(row, col, keep, alt);
            let shown = st.scroll_row + row;
            let last = line_total(st.text) - 1;
            &&& b.text == st.text
            &&& b.scroll_row == st.scroll_row
            &&& shown <= last && column_on(st.text, shown, col) ==> {
                &&& line_of(b.text, b.cursor) == shown
                &&& b.cursor - line_start(st.text, shown) <= col
                &&& b.cursor - line_start(st.text, shown) == col || b.cursor - line_start(
                    st.text,
                    shown,
                ) == line_len(st.text, shown)
                &&& b.goal_col == col_of(b.text, b.cursor)
            }
            &&& shown > last ==> line_of(b.text, b.cursor) == last
            &&& !keep && !alt ==> b.anchor is None && b.carets.len() == 0
            &&& keep && !alt ==> b.anchor == st.anchor
            &&& alt ==> b.anchor is None && (st.cursor != b.cursor ==> b.carets.contains(
                st.primary(),
            ))
        }),
{
    let shown = st.scroll_row + row;
    let last = line_total(st.text) - 1;
    lemma_line_around(st.text, 0);
    lemma_line_of_monotone(st.text, 0, st.text.len() as int);
    if shown <= last {
        lemma_line_starts_increase(st.text, shown);
        if column_on(st.text, shown, col) {
            lemma_column(st.text, shown, col);
        }
    } else {
        lemma_line_starts_increase(st.text, last);
        lemma_column(st.text, last, col);
    }
    if alt {
        let b = st.pointed(row, col, keep, alt);
        if st.cursor != b.cursor {
            lemma_promoted_keeps(st, b.cursor, st.primary());
        }
    }
}

proof fn lemma_placed_has(carets: Seq<CaretAt>, c: CaretAt, x: CaretAt)
    ensures
        crate::buffer::state::placed(carets, c).contains(x) == (carets.contains(x) || x == c),
    decreases carets.len(),
{
    let r = crate::buffer::state::placed(carets, c);
    if carets.len() == 0 || carets.last().cursor <= c.cursor {
        assert(r[carets.len() as int] == c);
        if carets.contains(x) {
            let k = choose|k: int| 0 <= k < carets.len() && carets[k] == x;
            assert(r[k] == x);
        }
        if r.contains(x) {
            let k = choose|k: int| 0 <= k < r.len() && r[k] == x;
            if k < carets.len() {
                assert(carets[k] == x);
            }
        }
    } else {
        let f = carets.drop_last();
        let q = crate::buffer::state::placed(f, c);
        lemma_placed_has(f, c, x);
        assert(r[q.len() as int] == carets.last());
        if q.contains(x) {
            let k = choose|k: int| 0 <= k < q.len() && q[k] == x;
            assert(r[k] == x);
        }
        if r.contains(x) {
            let k = choose|k: int| 0 <= k < r.len() && r[k] == x;
            if k < q.len() {
                assert(q[k] == x);
            } else {
                assert(carets[carets.len() - 1] == x);
            }
        }
        if carets.contains(x) {
            let k = choose|k: int| 0 <= k < carets.len() && carets[k] == x;
            if k < f.len() {
                assert(f[k] == x);
            }
        }
        if f.contains(x) {
            let k = choose|k: int| 0 <= k < f.len() && f[k] == x;
            assert(carets[k] == x);
        }
    }
}

/// A new caret leaves those that stand elsewhere.
pub proof fn lemma_promoted_keeps(st: BufferState, pos: int, x: CaretAt)
    ensures
        crate::buffer::state::without(
            crate::buffer::state::placed(st.carets, st.primary()),
            pos,
        ).contains(x) == (st.has_caret(x) && x.cursor != pos),
{
    let p = crate::buffer::state::placed(st.carets, st.primary());
    let f = crate::buffer::state::away_from(pos);
    lemma_placed_has(st.carets, st.primary(), x);
    let w = p.filter(f);
    if p.contains(x) && f(x) {
        let k = choose|k: int| 0 <= k < p.len() && p[k] == x;
        p.lemma_filter_contains(f, k);
    }
    if w.contains(x) {
        let k = choose|k: int| 0 <= k < w.len() && w[k] == x;
        p.lemma_filter_pred(f, k);
        p.lemma_filter_contains_rev(f, x);
    }
}

/// Whether two characters belong together for a double click: both or neither are
/// part of a word, and neither ends the line.
pub open spec fn one_run(a: char, b: char) -> bool {
    a != '\n' && b != '\n' && wordy(a) == wordy(b)
}

/// A press starts a selection at the caret; a second one takes the run of
/// characters around the caret, as far as it reaches on both sides, and a third the
/// whole line with its break. The caret is at the end of what is taken, and no
/// other caret is left.
pub proof fn law_clicks_take_the_word_and_the_line(st: BufferState, clicks: u8)
    requires
        st.wf(),
    ensures
        ({
            let b = st.pressed(clicks);
            let s = st.text;
            let i = if st.cursor < s.len() {
                st.cursor
            } else {
                s.len() - 1
            };
            &&& b.text == s
            &&& clicks < 2 ==> b.cursor == st.cursor && b.anchor == Some(st.cursor) && b.carets
                == st.carets
            &&& clicks == 2 && s.len() > 0 && s[i] != '\n' ==> {
                &&& b.carets.len() == 0
                &&& b.anchor matches Some(a) && 0 <= a <= i < b.cursor <= s.len() && (forall|k: int|
                    a <= k < b.cursor ==> one_run(s[i], #[trigger] s[k])) && (a == 0 || !one_run(
                    s[i],
                    s[a - 1],
                ))
                &&& b.cursor == s.len() || !one_run(s[i], s[b.cursor])
            }
            &&& clicks >= 3 ==> {
                &&& b.carets.len() == 0
                &&& b.anchor matches Some(a) && 0 <= a <= st.cursor <= b.cursor <= s.len() && (
                forall|k: int|
                    0 <= k < s.len() ==> (a <= k < b.cursor) == (#[trigger] line_of(s, k)
                        == line_of(s, st.cursor)))
            }
        }),
{
    let b = st.pressed(clicks);
    let s = st.text;
    let p = BufferState { anchor: Some(st.cursor), ..st };
    if clicks == 2 && s.len() > 0 {
        let i = if st.cursor < s.len() {
            st.cursor
        } else {
            s.len() - 1
        };
        let run = run_of(crate::chars::is_word(s[i]));
        lemma_back_while(s, i, run);
        lemma_fwd_while(s, i, run);
        assert(b == p.word_selected(i));
        assert forall|k: int| b.anchor->0 <= k < b.cursor implies one_run(
            s[i],
            #[trigger] s[k],
        ) || s[i] == '\n' by {
            assert(run(s[k]));
        }
        if s[i] != '\n' {
            assert(run(s[i]));
            assert(b.cursor > i) by {
                assert(crate::buffer::state::fwd_while(s, i, run)
                    == crate::buffer::state::fwd_while(s, i + 1, run));
                lemma_fwd_while(s, i + 1, run);
            }
        }
    }
    if clicks >= 3 {
        let l = line_of(s, st.cursor);
        lemma_line_around(s, st.cursor);
        lemma_line_start(s, l);
        lemma_line_starts_increase(s, l);
        assert forall|k: int| 0 <= k < s.len() implies (b.anchor->0 <= k < b.cursor) == (
        #[trigger] line_of(s, k) == l) by {
            lemma_on_line(s, l, k);
        }
    }
}

/// The places of a line are those from its start to the start of the next.
pub proof fn lemma_on_line(s: Seq<char>, l: int, k: int)
    requires
        0 <= l < line_total(s),
        0 <= k < s.len(),
    ensures
        (line_start(s, l) <= k < line_start(s, l + 1)) == (line_of(s, k) == l),
{
    lemma_line_start(s, l);
    lemma_line_starts_increase(s, l);
    if line_start(s, l) <= k {
        lemma_line_of_monotone(s, line_start(s, l), k);
    }
    if l + 1 < line_total(s) {
        lemma_line_start(s, l + 1);
        if line_start(s, l + 1) <= k {
            lemma_line_of_monotone(s, line_start(s, l + 1), k);
        }
    } else {
        lemma_line_start_past_end(s, l + 1);
        lemma_line_of_monotone(s, k, s.len() as int);
    }
}

/// Letting go of the mouse where it was pressed selects nothing; a selection that
/// holds something stays.
pub proof fn law_an_empty_selection_is_dropped(st: BufferState)
    ensures
        st.released().cursor == st.cursor,
        st.released().text == st.text,
        st.released().carets == st.carets,
        st.anchor == Some(st.cursor) ==> st.released().anchor is None,
        st.anchor != Some(st.cursor) ==> st.released() == st,
{
}

/// After a frame the caret that moved is in view. A view that showed it already
/// stays, and one that did not moves no further than to its first or last row.
/// Where the caret did not move, the view stays but for the end of the text.
pub proof fn law_the_view_follows_the_caret(st: BufferState, h: int, caret_moved: bool)
    requires
        st.wf(),
        0 <= st.scroll_row,
        h > 0,
    ensures
        ({
            let b = st.followed(h, caret_moved);
            let row = line_of(st.text, st.cursor);
            let old = if st.scroll_row < line_total(st.text) {
                st.scroll_row
            } else {
                line_total(st.text) - 1
            };
            &&& b == (BufferState { scroll_row: b.scroll_row, ..st })
            &&& 0 <= b.scroll_row < line_total(st.text)
            &&& caret_moved ==> b.scroll_row <= row < b.scroll_row + h
            &&& !caret_moved || old <= row < old + h ==> b.scroll_row == old
            &&& caret_moved && row < old ==> b.scroll_row == row
            &&& caret_moved && row >= old + h ==> b.scroll_row + h == row + 1
        }),
{
    lemma_line_around(st.text, st.cursor);
}

/// Scrolling moves the view by as many rows as it is asked to, down for a positive
/// number and up for a negative one, as far as there are lines; the caret stays.
/// Paging moves it by a page in the same way.
pub proof fn law_scrolling_moves_the_view(st: BufferState, delta: int, up: bool, page: int)
    requires
        0 <= st.scroll_row < line_total(st.text),
        0 <= page,
    ensures
        ({
            let b = st.scrolled(delta);
            &&& b == (BufferState { scroll_row: b.scroll_row, ..st })
            &&& 0 <= st.scroll_row + delta < line_total(st.text) ==> b.scroll_row == st.scroll_row
                + delta
            &&& st.scroll_row + delta < 0 ==> b.scroll_row == 0
            &&& st.scroll_row + delta >= line_total(st.text) ==> b.scroll_row == line_total(st.text)
                - 1
        }),
        st.paged(up, page) == st.scrolled(
            if up {
                -page
            } else {
                page
            },
        ),
{
}

/// Selecting a span takes the characters from one column of a line to another, with
/// the caret behind them, and nothing that is not on the line.
pub proof fn law_a_span_is_selected(st: BufferState, line: int, col: int, end_col: int)
    requires
        st.wf(),
        0 <= line < line_total(st.text),
        0 <= col <= end_col <= line_len(st.text, line),
    ensures
        ({
            let b = st.span_selected(line, col, end_col);
            &&& b.text == st.text
            &&& b.carets.len() == 0
            &&& b.anchor == Some(line_start(st.text, line) + col)
            &&& b.cursor == line_start(st.text, line) + end_col
        }),
{
}

} // verus!
