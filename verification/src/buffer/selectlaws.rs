//! What is selected and copied, and where carets are added.

use crate::buffer::carets::lemma_sorted_by;
use crate::buffer::editlaws::wordy;
use crate::buffer::moves::{lemma_back_while, lemma_fwd_while};
use crate::buffer::changes::{high, lemma_caret_within, lemma_sorted_holds, low};
use crate::buffer::pointlaws::{column_on, lemma_column, lemma_promoted_keeps};
use crate::buffer::state::{
    furthest, fwd_while, has_selection, joined, nearest, next_free, occurs_at, reach, run_of, selections_of,
    sorted_by, start_key, starts, unflagged, wrapped, BufferState, CaretAt, Flagged,
};
use crate::lines::{
    col_of, lemma_line_around, lemma_line_of_monotone, line_len, line_of, line_total,
};
use vstd::prelude::*;

verus! {

/// The selected texts of carets, one line each.
pub open spec fn on_lines(s: Seq<char>, cs: Seq<CaretAt>) -> Seq<char>
    decreases cs.len(),
{
    if cs.len() == 0 {
        Seq::empty()
    } else if cs.len() == 1 {
        s.subrange(low(cs[0]), high(cs[0]))
    } else {
        on_lines(s, cs.drop_last()) + seq!['\n'] + s.subrange(low(cs.last()), high(cs.last()))
    }
}

/// Whether `cs` are the carets that select something, each once, from top to
/// bottom.
pub open spec fn selecting_in_order(st: BufferState, cs: Seq<CaretAt>) -> bool {
    &&& forall|c: CaretAt| #[trigger]
        cs.contains(c) == (st.has_caret(c) && low(c) < high(c))
    &&& forall|i: int, j: int|
        0 <= i < j < cs.len() ==> low(#[trigger] cs[i]) <= low(#[trigger] cs[j]) && cs[i] != cs[j]
}

proof fn lemma_joined(s: Seq<char>, list: Seq<Flagged>)
    requires
        forall|k: int|
            0 <= k < list.len() ==> low((#[trigger] list[k]).caret) == list[k].caret.start()
                && high(list[k].caret) == list[k].caret.end(),
    ensures
        joined(s, list) == on_lines(s, unflagged(list)),
    decreases list.len(),
{
    if list.len() > 0 {
        let l = list.drop_last();
        assert forall|k: int| 0 <= k < l.len() implies low((#[trigger] l[k]).caret)
            == l[k].caret.start() && high(l[k].caret) == l[k].caret.end() by {
            assert(l[k] == list[k]);
        }
        lemma_joined(s, l);
        assert(unflagged(l) =~= unflagged(list).drop_last());
        assert(list[list.len() - 1] == list.last());
        assert(unflagged(list).last() == list.last().caret);
        let own = s.subrange(list.last().caret.start(), list.last().caret.end());
        let f = joined(s, l);
        assert(f.push('\n') + own =~= f + seq!['\n'] + own);
    }
}

/// What is copied is the text between the two ends of the selection; of many
/// carets, the selected texts from top to bottom, one line each. Nothing is copied
/// where nothing is selected.
pub proof fn law_the_selected_text_is_copied(st: BufferState)
    requires
        st.wf(),
        st.selections_ok(),
    ensures
        st.selection_text() is Some == exists|c: CaretAt| #[trigger]
            st.has_caret(c) && low(c) < high(c),
        st.selection_text() is Some ==> exists|cs: Seq<CaretAt>| #[trigger]
            selecting_in_order(st, cs) && st.selection_text()->0 == on_lines(st.text, cs),
{
    let s = st.text;
    assert(st.has_caret(st.primary()));
    lemma_caret_within(st, st.primary());
    if st.carets.len() == 0 {
        if st.primary().selecting() {
            let cs = seq![st.primary()];
            assert forall|c: CaretAt| #[trigger] cs.contains(c) == (st.has_caret(c) && low(c)
                < high(c)) by {
                assert(cs[0] == st.primary());
            }
            assert(selecting_in_order(st, cs));
        }
    } else {
        let all = st.flagged();
        let sel = selections_of(all);
        let list = sorted_by(sel, start_key());
        lemma_selecting(st);
        let cs = unflagged(list);
        assert forall|k: int| 0 <= k < list.len() implies low((#[trigger] list[k]).caret)
            == list[k].caret.start() && high(list[k].caret) == list[k].caret.end() by {
            assert(cs[k] == list[k].caret);
            assert(cs.contains(cs[k]));
            lemma_caret_within(st, list[k].caret);
        }
        lemma_joined(s, list);
        if list.len() > 0 {
            assert(cs.contains(cs[0]));
            assert(st.has_caret(cs[0]));
        }
        if exists|c: CaretAt| #[trigger] st.has_caret(c) && low(c) < high(c) {
            let c = choose|c: CaretAt| #[trigger] st.has_caret(c) && low(c) < high(c);
            assert(cs.contains(c));
        }
    }
}

/// The carets that select something, sorted.
proof fn lemma_selecting(st: BufferState)
    requires
        st.wf(),
        st.selections_ok(),
    ensures
        selecting_in_order(
            st,
            unflagged(sorted_by(selections_of(st.flagged()), start_key())),
        ),
{
    let all = st.flagged();
    let f = has_selection();
    let sel = all.filter(f);
    let list = sorted_by(sel, start_key());
    let cs = unflagged(list);
    assert forall|i: int, j: int| 0 <= i < all.len() && 0 <= j < all.len() && i != j implies all[i]
        != all[j] && all[i].caret.cursor != all[j].caret.cursor by {
        if i > 0 {
            assert(all[i].caret == st.carets[i - 1]);
        }
        if j > 0 {
            assert(all[j].caret == st.carets[j - 1]);
        }
        if i > 0 && j > 0 {
            if i < j {
                assert(st.carets[i - 1].cursor < st.carets[j - 1].cursor);
            } else {
                assert(st.carets[j - 1].cursor < st.carets[i - 1].cursor);
            }
        }
    }
    assert(all.no_duplicates());
    lemma_filter_once(all, f);
    lemma_sorted_holds(sel, start_key());
    lemma_sorted_by(sel, start_key(), |c: CaretAt| true);
    assert forall|x: Flagged| #[trigger] list.contains(x) == (all.contains(x)
        && x.caret.selecting()) by {
        assert(sel.contains(x) == (all.contains(x) && f(x)));
    }
    assert forall|c: CaretAt| #[trigger] cs.contains(c) == (st.has_caret(c) && low(c)
        < high(c)) by {
        if cs.contains(c) {
            let k = choose|k: int| 0 <= k < cs.len() && cs[k] == c;
            assert(list.contains(list[k]));
            let i = choose|i: int| 0 <= i < all.len() && all[i] == list[k];
            if i > 0 {
                assert(c == st.carets[i - 1]);
            }
            assert(st.has_caret(c));
            lemma_caret_within(st, c);
        }
        if st.has_caret(c) && low(c) < high(c) {
            lemma_caret_within(st, c);
            let i = if c == st.primary() {
                0
            } else {
                1 + choose|k: int| 0 <= k < st.carets.len() && st.carets[k] == c
            };
            assert(all[i].caret == c);
            assert(all.contains(all[i]));
            assert(list.contains(all[i]));
            let k = choose|k: int| 0 <= k < list.len() && list[k] == all[i];
            assert(cs[k] == c);
        }
    }
    assert forall|i: int, j: int| 0 <= i < j < cs.len() implies low(#[trigger] cs[i]) <= low(
        #[trigger] cs[j],
    ) && cs[i] != cs[j] by {
        assert(start_key()(list[i]) <= start_key()(list[j]));
        assert(cs.contains(cs[i]) && cs.contains(cs[j]));
        lemma_caret_within(st, cs[i]);
        lemma_caret_within(st, cs[j]);
        assert(list.contains(list[i]) && list.contains(list[j]));
        let x = choose|x: int| 0 <= x < all.len() && all[x] == list[i];
        let y = choose|y: int| 0 <= y < all.len() && all[y] == list[j];
        assert(list[i] != list[j]);
    }
}

/// Picking elements out keeps each once.
proof fn lemma_filter_once(list: Seq<Flagged>, f: spec_fn(Flagged) -> bool)
    requires
        list.no_duplicates(),
    ensures
        list.filter(f).no_duplicates(),
        forall|x: Flagged| #[trigger] list.filter(f).contains(x) == (list.contains(x) && f(x)),
    decreases list.len(),
{
    reveal(Seq::filter);
    if list.len() > 0 {
        let l = list.drop_last();
        assert forall|i: int, j: int| 0 <= i < l.len() && 0 <= j < l.len() && i != j implies l[i]
            != l[j] by {
            assert(list[i] != list[j]);
        }
        lemma_filter_once(l, f);
        let q = l.filter(f);
        let r = list.filter(f);
        let z = list.last();
        assert(list[list.len() - 1] == z);
        assert(!l.contains(z)) by {
            if l.contains(z) {
                let k = choose|k: int| 0 <= k < l.len() && l[k] == z;
                assert(list[k] != list[list.len() - 1]);
            }
        }
        assert forall|x: Flagged| #[trigger] list.contains(x) == (l.contains(x) || x == z) by {
            if list.contains(x) {
                let k = choose|k: int| 0 <= k < list.len() && list[k] == x;
                if k < l.len() {
                    assert(l[k] == x);
                }
            }
            if l.contains(x) {
                let k = choose|k: int| 0 <= k < l.len() && l[k] == x;
                assert(list[k] == x);
            }
        }
        if f(z) {
            assert(r == q.push(z));
            assert(!q.contains(z));
            assert forall|x: Flagged| #[trigger] r.contains(x) == (q.contains(x) || x == z) by {
                assert(r[q.len() as int] == z);
                if r.contains(x) {
                    let k = choose|k: int| 0 <= k < r.len() && r[k] == x;
                    if k < q.len() {
                        assert(q[k] == x);
                    }
                }
                if q.contains(x) {
                    let k = choose|k: int| 0 <= k < q.len() && q[k] == x;
                    assert(r[k] == x);
                }
            }
            assert forall|i: int, j: int| 0 <= i < r.len() && 0 <= j < r.len() && i != j implies r[i]
                != r[j] by {
                if i < q.len() && j < q.len() {
                    assert(q[i] != q[j]);
                } else if i < q.len() {
                    assert(q.contains(q[i]));
                } else {
                    assert(q.contains(q[j]));
                }
            }
        }
    }
}

/// Whether `w` stands in `s` at `p` and no selection of the buffer starts there.
pub open spec fn free_at(st: BufferState, w: Seq<char>, p: int) -> bool {
    &&& 0 <= p
    &&& p + w.len() <= st.text.len()
    &&& st.text.subrange(p, p + w.len()) == w
    &&& forall|c: CaretAt| #[trigger] st.has_caret(c) ==> low(c) != p
}

/// Whether the last selection ends at `e`.
pub open spec fn last_end(st: BufferState, e: int) -> bool {
    &&& exists|c: CaretAt| #[trigger] st.has_caret(c) && high(c) == e
    &&& forall|c: CaretAt| #[trigger] st.has_caret(c) ==> high(c) <= e
}

proof fn lemma_starts(st: BufferState, p: int)
    requires
        st.wf(),
        st.selections_ok(),
    ensures
        starts(st.flagged()).contains(p) == exists|c: CaretAt| #[trigger]
            st.has_caret(c) && low(c) == p,
{
    let all = st.flagged();
    let list = starts(all);
    if list.contains(p) {
        let k = choose|k: int| 0 <= k < list.len() && list[k] == p;
        if k > 0 {
            assert(all[k].caret == st.carets[k - 1]);
        }
        assert(st.has_caret(all[k].caret));
        lemma_caret_within(st, all[k].caret);
    }
    if exists|c: CaretAt| #[trigger] st.has_caret(c) && low(c) == p {
        let c = choose|c: CaretAt| #[trigger] st.has_caret(c) && low(c) == p;
        lemma_caret_within(st, c);
        let k = if c == st.primary() {
            0
        } else {
            1 + choose|k: int| 0 <= k < st.carets.len() && st.carets[k] == c
        };
        assert(all[k].caret == c);
        assert(list[k] == p);
    }
}

proof fn lemma_reach_is(list: Seq<Flagged>, e: int)
    requires
        0 <= e,
        forall|k: int| 0 <= k < list.len() ==> (#[trigger] list[k]).caret.end() <= e,
    ensures
        0 <= reach(list) <= e,
        (exists|k: int| 0 <= k < list.len() && (#[trigger] list[k]).caret.end() == e) ==> reach(
            list,
        ) == e,
    decreases list.len(),
{
    if list.len() > 0 {
        let l = list.drop_last();
        assert forall|k: int| 0 <= k < l.len() implies (#[trigger] l[k]).caret.end() <= e by {
            assert(l[k] == list[k]);
        }
        lemma_reach_is(l, e);
        assert(list[list.len() - 1] == list.last());
        if exists|k: int| 0 <= k < list.len() && (#[trigger] list[k]).caret.end() == e {
            let k = choose|k: int| 0 <= k < list.len() && (#[trigger] list[k]).caret.end() == e;
            if k < l.len() {
                assert(l[k].caret.end() == e);
            }
        }
    }
}

proof fn lemma_free_from(hay: Seq<char>, nee: Seq<char>, from: int, taken: Seq<int>, off: int)
    requires
        0 <= from <= hay.len(),
        0 <= off <= hay.len(),
    ensures
        match next_free(hay, nee, from, taken, off) {
            Some(p) => exists|o: int|
                off <= o < hay.len() && p == #[trigger] wrapped(from, o, hay.len() as int)
                    && occurs_at(hay, nee, p) && !taken.contains(p) && (forall|x: int|
                    off <= x < o ==> !(occurs_at(
                        hay,
                        nee,
                        #[trigger] wrapped(from, x, hay.len() as int),
                    ) && !taken.contains(wrapped(from, x, hay.len() as int)))),
            None => forall|x: int|
                off <= x < hay.len() ==> !(occurs_at(
                    hay,
                    nee,
                    #[trigger] wrapped(from, x, hay.len() as int),
                ) && !taken.contains(wrapped(from, x, hay.len() as int))),
        },
    decreases hay.len() - off,
{
    let n = hay.len() as int;
    if off < n {
        let p = wrapped(from, off, n);
        if !(occurs_at(hay, nee, p) && !taken.contains(p)) {
            lemma_free_from(hay, nee, from, taken, off + 1);
            if next_free(hay, nee, from, taken, off + 1) is Some {
                let r = next_free(hay, nee, from, taken, off + 1)->0;
                let o = choose|o: int|
                    off + 1 <= o < n && r == #[trigger] wrapped(from, o, n) && occurs_at(hay, nee, r)
                        && !taken.contains(r) && (forall|x: int|
                        off + 1 <= x < o ==> !(occurs_at(hay, nee, #[trigger] wrapped(from, x, n))
                            && !taken.contains(wrapped(from, x, n))));
                assert(off <= o < n && r == wrapped(from, o, n));
            }
        }
    }
}

/// Adding the next occurrence of the selected text selects, with a new primary
/// caret, the nearest place behind the last selection where that text stands and
/// no selection starts yet, going round at the end of the text. The other carets
/// stay. Where there is no such place, nothing happens.
pub proof fn law_the_next_occurrence_is_selected(st: BufferState, e: int)
    requires
        st.wf(),
        st.selections_ok(),
        low(st.primary()) < high(st.primary()),
        last_end(st, e),
    ensures
        ({
            let w = st.text.subrange(low(st.primary()), high(st.primary()));
            let b = st.next_occurrence_added();
            &&& !st.has_next_occurrence() ==> b == st && forall|q: int| !#[trigger] free_at(st, w, q)
            &&& st.has_next_occurrence() ==> {
                &&& b.text == st.text
                &&& b.anchor matches Some(p) && free_at(st, w, p) && b.cursor == p + w.len() && (
                p >= e ==> forall|q: int| e <= q < p ==> !#[trigger] free_at(st, w, q)) && (p < e
                    ==> forall|q: int| (q >= e || q < p) ==> !#[trigger] free_at(st, w, q))
                &&& forall|c: CaretAt| #[trigger]
                    st.has_caret(c) && c.cursor != b.cursor ==> b.carets.contains(c)
            }
        }),
{
    let s = st.text;
    let n = s.len() as int;
    let w = s.subrange(low(st.primary()), high(st.primary()));
    let all = st.flagged();
    let taken = starts(all);
    let b = st.next_occurrence_added();
    assert(st.has_caret(st.primary()));
    lemma_caret_within(st, st.primary());
    let far = choose|c: CaretAt| #[trigger] st.has_caret(c) && high(c) == e;
    lemma_caret_within(st, far);
    assert forall|k: int| 0 <= k < all.len() implies (#[trigger] all[k]).caret.end() <= e by {
        if k > 0 {
            assert(all[k].caret == st.carets[k - 1]);
        }
        assert(st.has_caret(all[k].caret));
        lemma_caret_within(st, all[k].caret);
    }
    let fk = if far == st.primary() {
        0
    } else {
        1 + choose|k: int| 0 <= k < st.carets.len() && st.carets[k] == far
    };
    assert(all[fk].caret == far);
    lemma_reach_is(all, e);
    assert(reach(all) == e);
    assert(w.len() > 0);
    assert forall|q: int| #[trigger] free_at(st, w, q) == (occurs_at(s, w, q) && !taken.contains(
        q,
    )) by {
        lemma_starts(st, q);
    }
    lemma_free_from(s, w, e, taken, 0);
    match st.next_occurrence() {
        Some(p) => {
            let o = choose|o: int|
                0 <= o < n && p == #[trigger] wrapped(e, o, n) && occurs_at(s, w, p)
                    && !taken.contains(p) && (forall|x: int|
                    0 <= x < o ==> !(occurs_at(s, w, #[trigger] wrapped(e, x, n))
                        && !taken.contains(wrapped(e, x, n))));
            assert(free_at(st, w, p));
            assert forall|q: int| (if p >= e {
                e <= q < p
            } else {
                q >= e || q < p
            }) implies !#[trigger] free_at(st, w, q) by {
                if free_at(st, w, q) {
                    let x = if q >= e {
                        q - e
                    } else {
                        q - e + n
                    };
                    assert(wrapped(e, x, n) == q);
                    assert(0 <= x < o);
                }
            }
            assert forall|c: CaretAt| #[trigger] st.has_caret(c) && c.cursor != b.cursor implies
                b.carets.contains(c) by {
                lemma_promoted_keeps(st, b.cursor, c);
            }
        },
        None => {
            assert forall|q: int| !#[trigger] free_at(st, w, q) by {
                if free_at(st, w, q) {
                    let x = if q >= e {
                        q - e
                    } else {
                        q - e + n
                    };
                    assert(wrapped(e, x, n) == q);
                }
            }
        },
    }
}

/// With one caret that selects nothing, the word that it is in is selected instead:
/// as far as the characters of words reach on both sides.
pub proof fn law_the_word_at_the_caret_is_selected_first(st: BufferState)
    requires
        st.wf(),
        st.carets.len() == 0,
        low(st.primary()) == high(st.primary()),
    ensures
        ({
            let s = st.text;
            let i = if st.cursor < s.len() {
                st.cursor
            } else {
                s.len() - 1
            };
            let b = st.next_occurrence_added();
            &&& st.has_next_occurrence() == (s.len() > 0 && wordy(s[i]))
            &&& !st.has_next_occurrence() ==> b == st
            &&& st.has_next_occurrence() && s[i] != '\n' ==> {
                &&& b.text == s
                &&& b.carets.len() == 0
                &&& b.anchor matches Some(a) && 0 <= a <= i < b.cursor <= s.len() && (a == 0
                    || !wordy(s[a - 1]) || s[a - 1] == '\n') && (forall|k: int|
                    a <= k < b.cursor ==> wordy(#[trigger] s[k]))
                &&& b.cursor == s.len() || !wordy(s[b.cursor]) || s[b.cursor] == '\n'
            }
        }),
{
    let s = st.text;
    let i = if st.cursor < s.len() {
        st.cursor
    } else {
        s.len() - 1
    };
    let b = st.next_occurrence_added();
    if st.has_next_occurrence() {
        let run = run_of(true);
        lemma_back_while(s, i, run);
        lemma_fwd_while(s, i, run);
        assert(run_of(crate::chars::is_word(s[i])) == run);
        assert forall|k: int| b.anchor->0 <= k < b.cursor implies wordy(#[trigger] s[k]) by {
            assert(run(s[k]));
        }
        if s[i] != '\n' {
            assert(run(s[i]));
            assert(fwd_while(s, i, run) == fwd_while(s, i + 1, run));
            lemma_fwd_while(s, i + 1, run);
        }
    }
}

proof fn lemma_outer(list: Seq<Flagged>)
    requires
        list.len() > 0,
    ensures
        exists|k: int| 0 <= k < list.len() && (#[trigger] list[k]).caret == furthest(list),
        exists|k: int| 0 <= k < list.len() && (#[trigger] list[k]).caret == nearest(list),
        forall|k: int|
            0 <= k < list.len() ==> nearest(list).cursor <= (#[trigger] list[k]).caret.cursor
                <= furthest(list).cursor,
    decreases list.len(),
{
    if list.len() > 1 {
        let l = list.drop_last();
        lemma_outer(l);
        assert(list[list.len() - 1] == list.last());
        let f = choose|k: int| 0 <= k < l.len() && (#[trigger] l[k]).caret == furthest(l);
        let n = choose|k: int| 0 <= k < l.len() && (#[trigger] l[k]).caret == nearest(l);
        assert(list[f] == l[f] && list[n] == l[n]);
        assert forall|k: int| 0 <= k < list.len() implies nearest(list).cursor <= (
        #[trigger] list[k]).caret.cursor <= furthest(list).cursor by {
            if k < l.len() {
                assert(l[k] == list[k]);
            }
        }
    } else {
        assert(list[0].caret == furthest(list));
    }
}

/// Whether the caret that was added to `a` stands on line `l`, at the column `col`
/// or at the end of a shorter line, and all other carets stay.
pub open spec fn adds_caret_on(a: BufferState, l: int, col: int, b: BufferState) -> bool {
    &&& b.text == a.text
    &&& b.anchor is None
    &&& column_on(a.text, l, col) ==> line_of(a.text, b.cursor) == l && (col_of(a.text, b.cursor)
        == col || (col_of(a.text, b.cursor) == line_len(a.text, l) && line_len(a.text, l) < col))
    &&& forall|c: CaretAt| #[trigger]
        a.has_caret(c) && c.cursor != b.cursor ==> b.carets.contains(c)
}

/// A caret added below stands one line below the lowest caret, and one added above
/// one line above the highest, in the column that this caret is in or aims for. The
/// carets that there were stay. Below the last line and above the first there is
/// none to add.
pub proof fn law_carets_are_added_on_the_next_line(st: BufferState)
    requires
        st.wf(),
        0 <= st.goal_col,
        forall|i: int| 0 <= i < st.carets.len() ==> 0 <= (#[trigger] st.carets[i]).goal_col,
    ensures
        ({
            let low = furthest(st.flagged());
            let high = nearest(st.flagged());
            let down = line_of(st.text, low.cursor) + 1;
            let up = line_of(st.text, high.cursor) - 1;
            &&& st.has_caret(low)
            &&& st.has_caret(high)
            &&& forall|c: CaretAt| #[trigger]
                st.has_caret(c) ==> high.cursor <= c.cursor <= low.cursor && up < line_of(
                    st.text,
                    c.cursor,
                ) < down
            &&& down < line_total(st.text) ==> adds_caret_on(
                st,
                down,
                if low.goal_col > col_of(st.text, low.cursor) {
                    low.goal_col
                } else {
                    col_of(st.text, low.cursor)
                },
                st.caret_added_on(low, down),
            )
            &&& up >= 0 ==> adds_caret_on(
                st,
                up,
                if high.goal_col > col_of(st.text, high.cursor) {
                    high.goal_col
                } else {
                    col_of(st.text, high.cursor)
                },
                st.caret_added_on(high, up),
            )
        }),
{
    let s = st.text;
    let all = st.flagged();
    let far = furthest(all);
    let near = nearest(all);
    lemma_outer(all);
    assert forall|k: int| 0 <= k < all.len() implies st.has_caret((#[trigger] all[k]).caret) && 0
        <= all[k].caret.cursor <= s.len() && 0 <= all[k].caret.goal_col by {
        if k > 0 {
            assert(all[k].caret == st.carets[k - 1]);
            assert(st.carets.contains(st.carets[k - 1]));
        }
    }
    assert(st.has_caret(far) && st.has_caret(near));
    assert(0 <= near.cursor <= far.cursor <= s.len());
    assert(0 <= near.goal_col && 0 <= far.goal_col);
    assert forall|c: CaretAt| #[trigger] st.has_caret(c) implies near.cursor <= c.cursor
        <= far.cursor && line_of(s, near.cursor) <= line_of(s, c.cursor) <= line_of(
        s,
        far.cursor,
    ) by {
        let k = if c == st.primary() {
            0
        } else {
            1 + choose|k: int| 0 <= k < st.carets.len() && st.carets[k] == c
        };
        assert(all[k].caret == c);
        lemma_line_of_monotone(s, near.cursor, c.cursor);
        lemma_line_of_monotone(s, c.cursor, far.cursor);
    }
    lemma_line_around(s, far.cursor);
    lemma_line_around(s, near.cursor);
    if line_of(s, far.cursor) + 1 < line_total(s) {
        lemma_added_on(st, far, line_of(s, far.cursor) + 1);
    }
    if line_of(s, near.cursor) - 1 >= 0 {
        lemma_added_on(st, near, line_of(s, near.cursor) - 1);
    }
}

proof fn lemma_added_on(st: BufferState, base: CaretAt, l: int)
    requires
        0 <= l < line_total(st.text),
        0 <= base.goal_col,
        0 <= col_of(st.text, base.cursor),
    ensures
        adds_caret_on(
            st,
            l,
            if base.goal_col > col_of(st.text, base.cursor) {
                base.goal_col
            } else {
                col_of(st.text, base.cursor)
            },
            st.caret_added_on(base, l),
        ),
{
    let col = if base.goal_col > col_of(st.text, base.cursor) {
        base.goal_col
    } else {
        col_of(st.text, base.cursor)
    };
    let b = st.caret_added_on(base, l);
    if column_on(st.text, l, col) {
        lemma_column(st.text, l, col);
    }
    assert forall|c: CaretAt| #[trigger] st.has_caret(c) && c.cursor != b.cursor implies
        b.carets.contains(c) by {
        lemma_promoted_keeps(st, b.cursor, c);
    }
}

} // verus!
