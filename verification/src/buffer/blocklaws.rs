//! What indenting and outdenting do to the lines.

use crate::buffer::changes::{high, lemma_woven_gone, lemma_woven_kept, low, woven};
use crate::buffer::editlaws::nowhere;
use crate::buffer::moves::lemma_fwd_while;
use crate::buffer::pointlaws::lemma_on_line;
use crate::buffer::state::{
    dedent_len, fwd_while, indented_text, indenting, outdented_text, outdenting, pad, rewritten,
    spaces, BufferState,
};
use crate::lines::{
    col_of, lemma_line_around, lemma_line_of_monotone, lemma_line_start,
    lemma_line_start_past_end, lemma_line_starts_increase, line_of, line_start, line_text,
    line_total,
};
use vstd::prelude::*;

verus! {

/// Whether line `l` is one that indenting is about: one with a selected character,
/// or the caret's line where nothing is selected.
pub open spec fn is_touched(st: BufferState, l: int) -> bool {
    if low(st.primary()) < high(st.primary()) {
        exists|k: int|
            low(st.primary()) <= k < high(st.primary()) && #[trigger] line_of(st.text, k) == l
    } else {
        l == line_of(st.text, st.cursor)
    }
}

/// The touched lines are those from the first to the last.
proof fn lemma_touched(st: BufferState, l: int)
    requires
        st.wf(),
        st.selection_ok(),
    ensures
        0 <= st.touched_lines().0 <= st.touched_lines().1 < line_total(st.text),
        is_touched(st, l) == (st.touched_lines().0 <= l <= st.touched_lines().1),
{
    let s = st.text;
    let a = low(st.primary());
    let e = high(st.primary());
    let (first, last) = st.touched_lines();
    assert(a == st.primary().start() && e == st.primary().end());
    lemma_line_around(s, a);
    lemma_line_around(s, e);
    lemma_line_of_monotone(s, a, e);
    if a < e {
        lemma_line_of_monotone(s, a, e - 1);
        lemma_line_of_monotone(s, e - 1, e);
        assert(line_of(s, e - 1) == last) by {
            let le = line_of(s, e);
            lemma_line_start(s, le);
            if e == line_start(s, le) {
                assert(line_of(s, e - 1) < le);
            } else {
                lemma_line_of_monotone(s, line_start(s, le), e - 1);
            }
        }
        if first <= l <= last {
            lemma_line_start(s, l);
            let k = if l == first {
                a
            } else {
                line_start(s, l)
            };
            assert(a <= k < e) by {
                if l > first {
                    if k < a {
                        lemma_line_of_monotone(s, k, a);
                    }
                    if k >= e {
                        lemma_line_of_monotone(s, e - 1, k);
                        assert(line_of(s, e - 1) < l);
                    }
                }
            }
            assert(line_of(s, k) == l);
        }
        if is_touched(st, l) {
            let k = choose|k: int| a <= k < e && #[trigger] line_of(s, k) == l;
            lemma_line_of_monotone(s, a, k);
            lemma_line_of_monotone(s, k, e - 1);
        }
    }
}

/// The places where touched lines start.
pub open spec fn touched_starts(st: BufferState) -> spec_fn(int) -> bool {
    |i: int| is_touched(st, line_of(st.text, i)) && col_of(st.text, i) == 0
}

/// The white space that touched lines lose: up to four spaces at their start, or
/// one tab.
pub open spec fn touched_margins(st: BufferState) -> spec_fn(int) -> bool {
    |i: int| is_touched(st, line_of(st.text, i)) && in_margin(st.text, i)
}

/// Whether the character at `i` is one of up to four spaces at the start of its
/// line, or a tab there.
pub open spec fn in_margin(s: Seq<char>, i: int) -> bool {
    if col_of(s, i) == 0 && s[i] == '\t' {
        true
    } else {
        col_of(s, i) < 4 && forall|k: int| i - col_of(s, i) <= k <= i ==> #[trigger] s[k] == ' '
    }
}

proof fn lemma_pads(st: BufferState, l: int)
    requires
        st.wf(),
        st.selection_ok(),
        0 <= l < line_total(st.text),
    ensures
        ({
            let s = st.text;
            let (first, last) = st.touched_lines();
            let done = rewritten(s, indenting(first, last), 0, l);
            woven(s, nowhere(), touched_starts(st), pad(), line_start(s, l)) == if first <= l
                <= last {
                done + pad()
            } else {
                done
            }
        }),
    decreases l,
{
    let s = st.text;
    let g = nowhere();
    let a = touched_starts(st);
    let (first, last) = st.touched_lines();
    let f = indenting(first, last);
    let t = pad();
    let e = line_start(s, l);
    lemma_touched(st, l);
    lemma_line_start(s, l);
    assert(a(e) == (first <= l <= last));
    if l == 0 {
        assert(Seq::<char>::empty() + t =~= rewritten(s, f, 0, 0) + t);
    } else {
        lemma_pads(st, l - 1);
        lemma_line_start(s, l - 1);
        lemma_line_starts_increase(s, l - 1);
        let b = line_start(s, l - 1);
        assert forall|i: int| b < i <= e - 1 implies !#[trigger] a(i) by {
            lemma_on_line(s, l - 1, i);
            assert(line_of(s, i) == l - 1);
        }
        lemma_woven_kept(s, g, a, t, b, e - 1);
        let w = woven(s, g, a, t, b);
        assert((w + s.subrange(b, e - 1)).push(s[e - 1]) =~= w + line_text(s, l - 1));
        let done = rewritten(s, f, 0, l - 1);
        assert(rewritten(s, f, 0, l) == done + f(l - 1, line_text(s, l - 1)));
        assert(done + t + line_text(s, l - 1) =~= done + (t + line_text(s, l - 1)));
    }
}

proof fn lemma_indented_woven(st: BufferState)
    requires
        st.wf(),
        st.selection_ok(),
    ensures
        indented_text(st.text, st.touched_lines().0, st.touched_lines().1) == woven(
            st.text,
            nowhere(),
            touched_starts(st),
            pad(),
            st.text.len() as int,
        ),
{
    let s = st.text;
    let g = nowhere();
    let a = touched_starts(st);
    let t = pad();
    let (first, last) = st.touched_lines();
    let f = indenting(first, last);
    let n = line_total(s) - 1;
    let e = s.len() as int;
    lemma_line_around(s, e);
    lemma_pads(st, n);
    lemma_touched(st, n);
    lemma_line_start(s, n);
    lemma_line_start_past_end(s, n + 1);
    let b = line_start(s, n);
    assert forall|i: int| b < i <= e implies !#[trigger] a(i) by {
        lemma_line_of_monotone(s, b, i);
        lemma_line_of_monotone(s, i, e);
        assert(line_of(s, i) == n);
    }
    lemma_woven_kept(s, g, a, t, b, e);
    let done = rewritten(s, f, 0, n);
    assert(line_text(s, n) == s.subrange(b, e));
    assert(rewritten(s, f, 0, n + 1) == done + f(n, line_text(s, n)));
    assert(done + t + line_text(s, n) =~= done + (t + line_text(s, n)));
}

/// Indenting puts four spaces at the start of every touched line and changes
/// nothing else in the text.
pub proof fn law_indenting_puts_four_spaces_in_front(st: BufferState)
    requires
        st.wf(),
        st.selection_ok(),
    ensures
        st.block_indented().text == woven(
            st.text,
            nowhere(),
            touched_starts(st),
            seq![' ', ' ', ' ', ' '],
            st.text.len() as int,
        ),
        low(st.primary()) == high(st.primary()) ==> st.block_indented().cursor == st.cursor + 4,
{
    lemma_indented_woven(st);
    assert(pad() =~= seq![' ', ' ', ' ', ' ']);
    lemma_block_indented(st);
}

proof fn lemma_block_indented(st: BufferState)
    requires
        st.wf(),
        st.selection_ok(),
    ensures
        st.block_indented().text == indented_text(
            st.text,
            st.touched_lines().0,
            st.touched_lines().1,
        ),
        low(st.primary()) == high(st.primary()) ==> st.block_indented().cursor == st.cursor + 4,
{
}

/// Which characters of a line are in its margin.
proof fn lemma_margin(s: Seq<char>, l: int, i: int)
    requires
        0 <= l < line_total(s),
        line_start(s, l) <= i < line_start(s, l + 1),
    ensures
        in_margin(s, i) == (i - line_start(s, l) < dedent_len(line_text(s, l))),
        dedent_len(line_text(s, l)) <= line_text(s, l).len(),
{
    let a = line_start(s, l);
    lemma_line_starts_increase(s, l);
    lemma_on_line(s, l, i);
    assert(col_of(s, i) == i - a);
    let line = line_text(s, l);
    let n = fwd_while(line, 0, spaces());
    lemma_fwd_while(line, 0, spaces());
    assert(line[i - a] == s[i]);
    assert(line[0] == s[a]);
    if i - a < n {
        assert forall|k: int| a <= k <= i implies #[trigger] s[k] == ' ' by {
            assert(spaces()(line[k - a]));
            assert(line[k - a] == s[k]);
        }
    } else if n < line.len() {
        assert(!spaces()(line[n]));
        assert(line[n] == s[a + n]);
        assert(a + n <= i);
    }
    if line[0] == '\t' {
        if i > a {
            assert(s[a] != ' ');
        }
    }
}

proof fn lemma_margins_go(st: BufferState, l: int)
    requires
        st.wf(),
        st.selection_ok(),
        0 <= l <= line_total(st.text),
    ensures
        ({
            let s = st.text;
            let (first, last) = st.touched_lines();
            rewritten(s, outdenting(first, last), 0, l) == woven(
                s,
                touched_margins(st),
                nowhere(),
                Seq::empty(),
                line_start(s, l),
            )
        }),
    decreases l,
{
    let s = st.text;
    let g = touched_margins(st);
    let a = nowhere();
    let t = Seq::<char>::empty();
    let (first, last) = st.touched_lines();
    let f = outdenting(first, last);
    if l == 0 {
        lemma_line_around(s, 0);
    } else {
        lemma_margins_go(st, l - 1);
        lemma_touched(st, l - 1);
        lemma_line_starts_increase(s, l - 1);
        lemma_line_start(s, l - 1);
        let b = line_start(s, l - 1);
        let e = line_start(s, l);
        let line = line_text(s, l - 1);
        let d = if first <= l - 1 <= last {
            dedent_len(line)
        } else {
            0
        };
        if b < e {
            lemma_margin(s, l - 1, b);
        } else {
            lemma_fwd_while(line, 0, spaces());
        }
        assert(0 <= d <= e - b) by {
            lemma_fwd_while(line, 0, spaces());
        }
        assert forall|i: int| b <= i < e implies #[trigger] g(i) == (i - b < d) by {
            lemma_on_line(s, l - 1, i);
            lemma_margin(s, l - 1, i);
        }
        lemma_woven_gone(s, g, a, t, b, b + d);
        lemma_woven_kept(s, g, a, t, b + d, e);
        assert(line.skip(d) =~= s.subrange(b + d, e));
        assert(f(l - 1, line) =~= line.skip(d));
    }
}

proof fn lemma_outdented_woven(st: BufferState)
    requires
        st.wf(),
        st.selection_ok(),
    ensures
        ({
            let (first, last) = st.touched_lines();
            let s = st.text;
            let w = woven(s, touched_margins(st), nowhere(), Seq::empty(), s.len() as int);
            &&& outdented_text(s, first, last) == w
            &&& (forall|l: int| first <= l <= last ==> #[trigger] st.dedent_of(l) == 0) ==> w == s
        }),
{
    let s = st.text;
    let n = line_total(s);
    let (first, last) = st.touched_lines();
    let g = touched_margins(st);
    let t = Seq::<char>::empty();
    lemma_line_around(s, 0);
    lemma_margins_go(st, n);
    lemma_line_start_past_end(s, n);
    assert(outdented_text(s, first, last) == woven(s, g, nowhere(), t, s.len() as int));
    if forall|l: int| first <= l <= last ==> #[trigger] st.dedent_of(l) == 0 {
        assert forall|i: int| 0 <= i < s.len() implies !#[trigger] g(i) by {
            lemma_line_of_monotone(s, 0, i);
            lemma_line_of_monotone(s, i, s.len() as int);
            let l = line_of(s, i);
            lemma_on_line(s, l, i);
            lemma_margin(s, l, i);
            lemma_touched(st, l);
            if first <= l <= last {
                assert(st.dedent_of(l) == 0);
            }
        }
        lemma_woven_kept(s, g, nowhere(), t, 0, s.len() as int);
        assert(woven(s, g, nowhere(), t, 0) =~= Seq::empty());
        assert(Seq::<char>::empty() + s.subrange(0, s.len() as int) =~= s);
    }
}

/// Outdenting takes up to four spaces, or one tab, from the start of every touched
/// line and changes nothing else in the text.
pub proof fn law_outdenting_takes_up_to_four_spaces(st: BufferState)
    requires
        st.wf(),
        st.selection_ok(),
    ensures
        st.block_outdented().text == woven(
            st.text,
            touched_margins(st),
            nowhere(),
            Seq::empty(),
            st.text.len() as int,
        ),
{
    lemma_outdented_woven(st);
    lemma_block_outdented(st);
}

proof fn lemma_block_outdented(st: BufferState)
    ensures
        ({
            let (first, last) = st.touched_lines();
            st.block_outdented().text == if forall|l: int|
                first <= l <= last ==> #[trigger] st.dedent_of(l) == 0 {
                st.text
            } else {
                outdented_text(st.text, first, last)
            }
        }),
{
}

} // verus!
