//! Indenting and outdenting whole lines.

use crate::buffer::carets::carets_view;
use crate::buffer::moves::lemma_fwd_while;
use crate::buffer::state::{
    dedent_len, fwd_while, greatest, indented_text, indenting, outdented_text, outdenting, pad,
    rewritten, spaces, BufferState, EditKind,
};
use crate::buffer::Buffer;
use crate::lines::{
    col_of, is_line_break, lemma_line_around, lemma_line_of_monotone, lemma_line_start,
    lemma_line_start_past_end, lemma_line_starts_increase, line_ends_at, line_of, line_start,
    line_text, line_total,
};
use crate::rope::{
    fits_rope, rope_char_to_line, rope_from_str, rope_get_char, rope_insert, rope_len_chars,
    rope_len_lines, rope_line, rope_line_to_char, rope_remove, rope_text,
};
use crate::strings::{chars_of, text_of};
use vstd::prelude::*;
use vstd::string::*;

verus! {

/// Rewriting the lines up to `b` and then those from there on rewrites them all.
pub proof fn lemma_rewritten_join(
    s: Seq<char>,
    f: spec_fn(int, Seq<char>) -> Seq<char>,
    a: int,
    b: int,
    c: int,
)
    requires
        a <= b <= c,
    ensures
        rewritten(s, f, a, b) + rewritten(s, f, b, c) == rewritten(s, f, a, c),
    decreases c - b,
{
    if b < c {
        lemma_rewritten_join(s, f, a, b, c - 1);
        let last = f(c - 1, line_text(s, c - 1));
        assert(rewritten(s, f, a, b) + (rewritten(s, f, b, c - 1) + last) =~= (rewritten(
            s,
            f,
            a,
            b,
        ) + rewritten(s, f, b, c - 1)) + last);
    } else {
        assert(rewritten(s, f, a, b) + Seq::<char>::empty() =~= rewritten(s, f, a, b));
    }
}

/// Lines that are left as they are make up the text between their starts.
pub proof fn lemma_rewritten_same(
    s: Seq<char>,
    f: spec_fn(int, Seq<char>) -> Seq<char>,
    a: int,
    b: int,
)
    requires
        0 <= a <= b <= line_total(s),
        forall|l: int| a <= l < b ==> #[trigger] f(l, line_text(s, l)) == line_text(s, l),
    ensures
        line_start(s, a) <= line_start(s, b) <= s.len(),
        0 <= line_start(s, a),
        rewritten(s, f, a, b) == s.subrange(line_start(s, a), line_start(s, b)),
    decreases b - a,
{
    if b < line_total(s) {
        lemma_line_start(s, b);
    } else {
        lemma_line_start_past_end(s, b);
    }
    if a < b {
        lemma_rewritten_same(s, f, a, b - 1);
        lemma_line_starts_increase(s, b - 1);
        assert(f(b - 1, line_text(s, b - 1)) == line_text(s, b - 1));
        assert(s.subrange(line_start(s, a), line_start(s, b - 1)) + line_text(s, b - 1)
            =~= s.subrange(line_start(s, a), line_start(s, b)));
    } else {
        assert(Seq::<char>::empty() =~= s.subrange(line_start(s, a), line_start(s, b)));
    }
}

/// One line more in front: the line `k` as `f` rewrites it, then the rest.
proof fn lemma_rewritten_first(
    s: Seq<char>,
    f: spec_fn(int, Seq<char>) -> Seq<char>,
    k: int,
    c: int,
)
    requires
        k < c,
    ensures
        rewritten(s, f, k, c) == f(k, line_text(s, k)) + rewritten(s, f, k + 1, c),
{
    lemma_rewritten_join(s, f, k, k + 1, c);
    assert(rewritten(s, f, k, k + 1) =~= f(k, line_text(s, k))) by {
        assert(rewritten(s, f, k, k) =~= Seq::empty());
    }
}

/// Texts that agree up to `p` have the same lines before it.
pub proof fn lemma_same_lines_before(s: Seq<char>, t: Seq<char>, p: int, q: int)
    requires
        0 <= p <= s.len(),
        p <= t.len(),
        s.take(p) == t.take(p),
        0 <= q < p || q == 0,
    ensures
        line_of(s, q) == line_of(t, q),
    decreases q,
{
    if q > 0 {
        lemma_same_lines_before(s, t, p, q - 1);
        assert(s[q - 1] == s.take(p)[q - 1]);
        assert(t[q - 1] == t.take(p)[q - 1]);
        assert(s[q] == s.take(p)[q]);
        assert(t[q] == t.take(p)[q]);
    }
}

/// A line that starts where texts still agree starts there in both.
pub proof fn lemma_same_start_before(s: Seq<char>, t: Seq<char>, p: int, k: int)
    requires
        0 <= p <= s.len(),
        p <= t.len(),
        s.take(p) == t.take(p),
        0 <= k < line_total(s),
        line_start(s, k) < p || line_start(s, k) == 0,
    ensures
        k < line_total(t),
        line_start(t, k) == line_start(s, k),
{
    lemma_line_start(s, k);
    let a = line_start(s, k);
    lemma_same_lines_before(s, t, p, a);
    assert(line_of(t, a) == k);
    lemma_line_of_monotone(t, a, t.len() as int);
    lemma_line_start(t, k);
    let b = line_start(t, k);
    if b < a {
        lemma_same_lines_before(s, t, p, b);
        assert(line_of(s, b) < k);
    }
    if a < b {
        assert(line_of(t, a) < k);
    }
}

/// No line ends inside a line.
pub proof fn lemma_inside_line(s: Seq<char>, l: int, q: int)
    requires
        0 <= l < line_total(s),
        line_start(s, l) < q,
        q < line_start(s, l + 1) || (q == s.len() && l + 1 == line_total(s)),
    ensures
        line_of(s, q) == l,
        !line_ends_at(s, q),
{
    lemma_line_start(s, l);
    lemma_line_starts_increase(s, l);
    lemma_line_of_monotone(s, line_start(s, l), q);
    lemma_line_of_monotone(s, line_start(s, l), q - 1);
    if l + 1 < line_total(s) {
        lemma_line_start(s, l + 1);
        assert(line_of(s, q) < l + 1);
    } else {
        lemma_line_of_monotone(s, q, s.len() as int);
    }
}

/// How much outdenting takes from a line is no more than the line has.
proof fn lemma_dedent_len(line: Seq<char>)
    ensures
        0 <= dedent_len(line) <= line.len(),
        dedent_len(line) <= 4,
{
    lemma_fwd_while(line, 0, spaces());
}

/// Indenting keeps the lines: each line of the new text is a line of the old
/// one, with the spaces in front where it is in the range.
pub proof fn lemma_indented_lines(s: Seq<char>, first: int, last: int, l: int)
    requires
        0 <= l <= line_total(s),
    ensures
        ({
            let t = indented_text(s, first, last);
            let f = indenting(first, last);
            let r = rewritten(s, f, 0, l);
            &&& r.len() <= t.len()
            &&& t.take(r.len() as int) == r
            &&& l < line_total(s) ==> line_of(t, r.len() as int) == l
            &&& l < line_total(s) ==> (l == 0 || line_ends_at(t, r.len() as int))
            &&& l == line_total(s) ==> line_of(t, r.len() as int) == l - 1
        }),
    decreases l,
{
    let t = indented_text(s, first, last);
    let f = indenting(first, last);
    let total = line_total(s);
    let r = rewritten(s, f, 0, l);
    lemma_rewritten_join(s, f, 0, l, total);
    assert(t == r + rewritten(s, f, l, total));
    assert(t.take(r.len() as int) =~= r);
    lemma_line_around(s, 0);
    if l > 0 {
        lemma_indented_lines(s, first, last, l - 1);
        let r0 = rewritten(s, f, 0, l - 1);
        let line = line_text(s, l - 1);
        let new_line = f(l - 1, line);
        let k = new_line.len() - line.len();
        assert(r == r0 + new_line);
        lemma_line_starts_increase(s, l - 1);
        let a = line_start(s, l - 1);
        let e = line_start(s, l);
        assert forall|j: int| 0 <= j < new_line.len() implies t[r0.len() + j]
            == #[trigger] new_line[j] by {
            assert(t.take(r.len() as int)[r0.len() + j] == t[r0.len() + j]);
        }
        lemma_indented_inside(s, first, last, l, new_line.len() as int);
        assert(r.len() == r0.len() + new_line.len());
        if new_line.len() > 0 {
            assert(line_of(t, r.len() - 1) == l - 1);
        } else {
            assert(r =~= r0);
        }
        if l < total {
            assert(new_line.len() > 0);
            assert(line_ends_at(t, r.len() as int)) by {
                lemma_line_start(s, l);
                let n = r.len() as int;
                assert(t[n - 1] == new_line[new_line.len() - 1]);
                assert(new_line[new_line.len() - 1] == line[line.len() - 1]);
                assert(line[line.len() - 1] == s[e - 1]);
                lemma_line_starts_increase(s, l);
                lemma_rewritten_first(s, f, l, total);
                if n < t.len() {
                    let next = f(l, line_text(s, l));
                    let rest = rewritten(s, f, l + 1, total);
                    assert(t[n] == (next + rest)[0]);
                    if next.len() == 0 {
                        assert(line_text(s, l).len() == 0);
                        if l + 1 < total {
                            assert(false);
                        }
                        assert(rest.len() == 0);
                        assert(false);
                    }
                    assert(t[n] == next[0]);
                    if !(first <= l <= last) {
                        assert(next[0] == s[e]);
                    }
                }
            }
        } else {
            lemma_line_start_past_end(s, total);
            if new_line.len() > 0 {
                assert(!line_ends_at(t, r.len() as int)) by {
                    let n = r.len() as int;
                    assert(t.len() == n);
                    assert(t[n - 1] == new_line[new_line.len() - 1]);
                    if line.len() > 0 {
                        assert(new_line[new_line.len() - 1] == line[line.len() - 1]);
                        lemma_inside_line(s, l - 1, e);
                        assert(s[e - 1] == line[line.len() - 1]);
                    }
                }
            }
        }
    }
}

/// Inside a line of the indented text no line ends.
proof fn lemma_indented_inside(s: Seq<char>, first: int, last: int, l: int, j: int)
    requires
        0 < l <= line_total(s),
        ({
            let t = indented_text(s, first, last);
            let f = indenting(first, last);
            let r0 = rewritten(s, f, 0, l - 1);
            let new_line = f(l - 1, line_text(s, l - 1));
            &&& 0 <= j <= new_line.len()
            &&& r0.len() + new_line.len() <= t.len()
            &&& line_of(t, r0.len() as int) == l - 1
            &&& forall|i: int|
                0 <= i < new_line.len() ==> t[r0.len() + i] == #[trigger] new_line[i]
        }),
    ensures
        ({
            let t = indented_text(s, first, last);
            let f = indenting(first, last);
            let r0 = rewritten(s, f, 0, l - 1);
            let new_line = f(l - 1, line_text(s, l - 1));
            &&& j < new_line.len() ==> line_of(t, r0.len() + j) == l - 1
            &&& j == new_line.len() && j > 0 ==> line_of(t, r0.len() + j - 1) == l - 1
        }),
    decreases j,
{
    let t = indented_text(s, first, last);
    let f = indenting(first, last);
    let r0 = rewritten(s, f, 0, l - 1);
    let line = line_text(s, l - 1);
    let new_line = f(l - 1, line);
    let n = r0.len() as int;
    if j > 0 {
        lemma_indented_inside(s, first, last, l, j - 1);
        if j < new_line.len() {
            let k = new_line.len() - line.len();
            lemma_line_starts_increase(s, l - 1);
            let a = line_start(s, l - 1);
            assert(t[n + (j - 1)] == new_line[j - 1]);
            assert(t[n + j] == new_line[j]);
            if j - 1 >= k {
                assert(new_line[j - 1] == line[j - 1 - k]);
                assert(new_line[j] == line[j - k]);
                assert(line[j - 1 - k] == s[a + (j - 1 - k)]);
                assert(line[j - k] == s[a + (j - k)]);
                lemma_inside_line(s, l - 1, a + (j - k));
            } else {
                assert(new_line[j - 1] == ' ');
            }
            assert(!line_ends_at(t, n + j));
        }
    }
}

/// Indenting keeps the number of lines, and each line of the new text is the
/// old line as it was rewritten.
pub proof fn lemma_indented_line(s: Seq<char>, first: int, last: int, l: int)
    requires
        0 <= l < line_total(s),
    ensures
        ({
            let t = indented_text(s, first, last);
            &&& line_total(t) == line_total(s)
            &&& line_start(t, l) == rewritten(s, indenting(first, last), 0, l).len()
            &&& line_text(t, l) == indenting(first, last)(l, line_text(s, l))
        }),
{
    let t = indented_text(s, first, last);
    let f = indenting(first, last);
    let total = line_total(s);
    lemma_indented_lines(s, first, last, total);
    assert(rewritten(s, f, 0, total) == t);
    assert(line_total(t) == total);
    lemma_indented_start(s, first, last, l);
    if l + 1 < total {
        lemma_indented_start(s, first, last, l + 1);
    } else {
        lemma_line_start_past_end(t, l + 1);
    }
    let a = rewritten(s, f, 0, l);
    let b = rewritten(s, f, 0, l + 1);
    lemma_indented_lines(s, first, last, l);
    lemma_indented_lines(s, first, last, l + 1);
    assert(b == a + f(l, line_text(s, l)));
    assert(line_text(t, l) =~= f(l, line_text(s, l))) by {
        assert(t.subrange(a.len() as int, b.len() as int) =~= t.take(b.len() as int).subrange(
            a.len() as int,
            b.len() as int,
        ));
    }
}

proof fn lemma_indented_start(s: Seq<char>, first: int, last: int, l: int)
    requires
        0 <= l < line_total(s),
    ensures
        line_start(indented_text(s, first, last), l) == rewritten(
            s,
            indenting(first, last),
            0,
            l,
        ).len(),
{
    let t = indented_text(s, first, last);
    let n = rewritten(s, indenting(first, last), 0, l).len() as int;
    lemma_indented_lines(s, first, last, l);
    lemma_line_of_monotone(t, n, t.len() as int);
    lemma_line_start(t, l);
    let b = line_start(t, l);
    if n < b {
        assert(line_of(t, n) < l);
    }
    if b < n {
        lemma_line_of_monotone(t, b, n - 1);
        assert(line_ends_at(t, n));
    }
}

impl BufferState {
    /// Whether the selection reaches over more than one line.
    pub open spec fn spans_lines(self) -> bool {
        let c = self.primary();
        c.selecting() && c.end() <= self.text.len() && line_of(self.text, c.start()) != line_of(
            self.text,
            c.end(),
        )
    }
}

impl Buffer {
    /// Whether the selection reaches over more than one line.
    pub fn spans_lines(&self) -> (r: bool)
        ensures
            r == self@.spans_lines(),
    {
        match self.selection() {
            Some((s, e)) => e <= rope_len_chars(&self.rope) && rope_char_to_line(&self.rope, s)
                != rope_char_to_line(&self.rope, e),
            None => false,
        }
    }

    /// The lines that indenting affects: every line the selection touches (but
    /// not one that it only reaches the start of), or just the cursor's line.
    fn indent_line_range(&self) -> (r: (usize, usize))
        requires
            self@.wf(),
            self@.selection_ok(),
        ensures
            r.0 == self@.touched_lines().0,
            r.1 == self@.touched_lines().1,
            r.0 <= r.1 < line_total(self@.text),
    {
        let (s, e) = self.this_caret().bounds();
        proof {
            lemma_line_around(self@.text, s as int);
            lemma_line_around(self@.text, e as int);
            lemma_line_of_monotone(self@.text, s as int, e as int);
        }
        let first: usize = rope_char_to_line(&self.rope, s);
        let mut last: usize = rope_char_to_line(&self.rope, e);
        if s != e && last > first && e == rope_line_to_char(&self.rope, last) {
            last = last - 1;
        }
        (first, last)
    }

    /// Select the whole lines `first..=last`.
    fn select_lines(&mut self, first: usize, last: usize)
        requires
            first <= last <= line_total(old(self)@.text),
        ensures
            final(self)@ == old(self)@.lines_selected(first as int, last as int),
            0 <= final(self)@.cursor <= final(self)@.text.len(),
    {
        proof {
            if last < line_total(self@.text) {
                lemma_line_starts_increase(self@.text, last as int);
            } else {
                lemma_line_start_past_end(self@.text, last as int);
            }
        }
        let n: usize = rope_len_chars(&self.rope);
        self.anchor = Some(rope_line_to_char(&self.rope, first));
        self.cursor = rope_line_to_char(&self.rope, last) + self.line_len_chars(last);
        self.goal_col = self.cursor_col();
    }

    /// Indent every line in the range by four spaces.
    pub fn indent_selection(&mut self)
        requires
            old(self)@.wf(),
            old(self)@.selection_ok(),
            fits_rope(
                (old(self)@.text.len() + 4 * (old(self)@.touched_lines().1
                    - old(self)@.touched_lines().0 + 1)) as nat,
            ),
        ensures
            final(self)@ == old(self)@.block_indented(),
            final(self)@.wf(),
    {
        let ghost st = self@;
        let ghost s = st.text;
        self.carets.clear();
        assert(carets_view(self.carets@) =~= Seq::empty());
        let ghost bare = self@;
        let (first, last) = self.indent_line_range();
        let had_sel: bool = self.selection().is_some();
        let start: usize = self.cursor;
        let lines: usize = self.line_count();
        let mut k: usize = last + 1;
        self.checkpoint(EditKind::Insert);
        let ghost cp = self@;
        let ghost f = indenting(first as int, last as int);
        let ghost total = line_total(s);
        let pad_text = "    ";
        proof {
            reveal_strlit("    ");
            assert(pad_text@ =~= pad());
            lemma_rewritten_same(s, f, last + 1, total);
            lemma_line_starts_increase(s, last as int);
            lemma_line_start_past_end(s, total);
            assert(s =~= s.take(line_start(s, last + 1)) + rewritten(s, f, last + 1, total));
        }
        while k > first
            invariant
                first <= k <= last + 1,
                last < total,
                total == line_total(s),
                pad_text@ == pad(),
                f == indenting(first as int, last as int),
                0 <= line_start(s, k as int) <= s.len(),
                self@ == (BufferState {
                    text: s.take(line_start(s, k as int)) + rewritten(s, f, k as int, total),
                    ..cp
                }),
                self@.text.len() == s.len() + 4 * (last + 1 - k),
                fits_rope((s.len() + 4 * (last - first + 1)) as nat),
            decreases k,
        {
            let ghost t = self@.text;
            let ghost p = line_start(s, k as int);
            let ghost a = line_start(s, k - 1);
            let ghost rest = rewritten(s, f, k as int, total);
            proof {
                lemma_line_starts_increase(s, k - 1);
                assert(t.take(p) =~= s.take(p));
                if a < p || a == 0 {
                    lemma_same_start_before(s, t, p, k - 1);
                } else {
                    lemma_line_start_past_end(s, k as int);
                    assert(rest =~= Seq::empty());
                    assert(t =~= s);
                }
            }
            k = k - 1;
            let at: usize = rope_line_to_char(&self.rope, k);
            rope_insert(&mut self.rope, at, pad_text);
            proof {
                lemma_rewritten_first(s, f, k as int, total);
                assert(rope_text(self.rope) =~= s.take(a) + rewritten(s, f, k as int, total)) by {
                    assert(t.take(a) =~= s.take(a));
                    assert(t.skip(a) =~= line_text(s, k as int) + rest);
                    assert(f(k as int, line_text(s, k as int)) == pad() + line_text(s, k as int));
                }
            }
        }
        proof {
            lemma_rewritten_same(s, f, 0, first as int);
            lemma_rewritten_join(s, f, 0, first as int, total);
            assert(s.take(line_start(s, first as int)) =~= s.subrange(
                line_start(s, 0),
                line_start(s, first as int),
            )) by {
                lemma_line_start(s, 0);
            }
            assert(self@.text =~= indented_text(s, first as int, last as int));
            lemma_indented_line(s, first as int, last as int, last as int);
        }
        if had_sel {
            self.select_lines(first, last);
        } else {
            self.cursor = start + 4;
            self.goal_col = self.cursor_col();
        }
        self.note_edit(EditKind::Insert);
        self.bump();
        assert(self@ =~= st.block_indented());
    }

    /// How many characters outdenting takes from `line`.
    fn dedent_at(&self, line: usize) -> (r: usize)
        requires
            line < line_total(self@.text),
        ensures
            r == dedent_len(line_text(self@.text, line as int)),
            line_start(self@.text, line as int) + r <= line_start(self@.text, line + 1),
    {
        let ghost s = self@.text;
        let ghost text = line_text(s, line as int);
        let ghost e = line_start(s, line + 1);
        proof {
            lemma_line_starts_increase(s, line as int);
            lemma_dedent_len(text);
            if line + 1 < line_total(s) {
                lemma_line_start(s, line + 1);
            } else {
                lemma_line_start_past_end(s, line + 1);
            }
        }
        let start: usize = rope_line_to_char(&self.rope, line);
        let total: usize = rope_len_chars(&self.rope);
        match rope_get_char(&self.rope, start) {
            Some(c) => {
                if c == '\t' {
                    assert(start < e);
                    assert(text[0] == s[start as int]);
                    return 1;
                }
                proof {
                    if start < e {
                        assert(text[0] == s[start as int]);
                    }
                }
            },
            None => {},
        }
        let mut n: usize = 0;
        while n < 4 && n < total - start && rope_get_char(&self.rope, start + n) == Some(' ')
            invariant
                n <= 4,
                s == self@.text,
                text == line_text(s, line as int),
                total == s.len(),
                start == line_start(s, line as int),
                e == line_start(s, line + 1),
                start <= e <= s.len(),
                e < s.len() ==> start < e && is_line_break(s[e - 1]),
                start + n <= e,
                forall|j: int| start <= j < start + n ==> s[j] == ' ',
                fwd_while(text, 0, spaces()) == fwd_while(text, n as int, spaces()),
            decreases 4 - n,
        {
            assert(start + n < e) by {
                if start + n == e {
                    assert(s[e - 1] == ' ');
                }
            }
            assert(text[n as int] == s[start + n]);
            n = n + 1;
        }
        proof {
            if n < 4 {
                if start + n < e {
                    assert(text[n as int] == s[start + n]);
                }
                assert(fwd_while(text, n as int, spaces()) == n);
            } else {
                lemma_fwd_while(text, n as int, spaces());
            }
        }
        n
    }

    /// Whether outdenting leaves enough lines to select the block again, which
    /// `outdent_selection` asks for.
    pub fn can_outdent(&self) -> (r: bool)
        requires
            self@.wf(),
            self@.selection_ok(),
        ensures
            r == self@.outdent_keeps_lines(),
    {
        if self.selection().is_none() {
            return true;
        }
        let ghost s = self@.text;
        let (first, last) = self.indent_line_range();
        let ghost f = outdenting(first as int, last as int);
        let lines: usize = self.line_count();
        let mut text = String::new();
        let mut l: usize = 0;
        while l < lines
            invariant
                l <= lines,
                lines == line_total(s),
                s == self@.text,
                f == outdenting(first as int, last as int),
                text@ == rewritten(s, f, 0, l as int),
            decreases lines - l,
        {
            let line = rope_line(&self.rope, l);
            if first <= l && l <= last {
                let n: usize = self.dedent_at(l);
                let v = chars_of(line.as_str());
                proof {
                    lemma_dedent_len(line@);
                    assert(v@.subrange(n as int, v@.len() as int) =~= v@.skip(n as int));
                }
                text.append(text_of(&v, n, v.len()).as_str());
            } else {
                text.append(line.as_str());
            }
            l = l + 1;
        }
        last <= rope_len_lines(&rope_from_str(text.as_str()))
    }

    /// Remove up to four leading spaces, or one leading tab, from every line in
    /// the range.
    pub fn outdent_selection(&mut self)
        requires
            old(self)@.wf(),
            old(self)@.selection_ok(),
            old(self)@.outdent_keeps_lines(),
        ensures
            final(self)@ == old(self)@.block_outdented(),
            final(self)@.wf(),
    {
        let ghost st = self@;
        let ghost s = st.text;
        self.carets.clear();
        assert(carets_view(self.carets@) =~= Seq::empty());
        let (first, last) = self.indent_line_range();
        let had_sel: bool = self.selection().is_some();
        let row: usize = self.cursor_row();
        let col: usize = self.cursor_col();
        let ghost f = outdenting(first as int, last as int);
        let ghost total = line_total(s);
        // Decide what each line gives first, so that only a real change makes
        // an undo step.
        let mut cuts: Vec<(usize, usize)> = Vec::new();
        let mut own: usize = 0;
        let mut any: bool = false;
        let lines: usize = self.line_count();
        let size: usize = rope_len_chars(&self.rope);
        let end: usize = last + 1;
        let mut l: usize = first;
        while l < end
            invariant
                first <= l <= end,
                end == last + 1,
                last < total,
                total == line_total(s),
                self@.text == s,
                s == st.text,
                cuts.len() == l - first,
                any == exists|k: int| first <= k < l && #[trigger] st.dedent_of(k) != 0,
                first <= row < l ==> own == st.dedent_of(row as int),
                forall|k: int|
                    0 <= k < cuts.len() ==> (#[trigger] cuts[k]).0 == line_start(s, first + k)
                        && cuts[k].1 == st.dedent_of(first + k) && cuts[k].0 + cuts[k].1
                        <= line_start(s, first + k + 1),
            decreases end - l,
        {
            let n: usize = self.dedent_at(l);
            let ghost had = any;
            assert(n == st.dedent_of(l as int));
            if l == row {
                own = n;
            }
            any = any || n > 0;
            cuts.push((rope_line_to_char(&self.rope, l), n));
            proof {
                if any && had {
                    let k = choose|k: int| first <= k < l && #[trigger] st.dedent_of(k) != 0;
                    assert(st.dedent_of(k) != 0);
                }
            }
            l = l + 1;
        }
        if !any {
            return;
        }
        self.checkpoint(EditKind::Delete);
        let ghost cp = self@;
        proof {
            lemma_rewritten_same(s, f, last + 1, total);
            lemma_line_starts_increase(s, last as int);
            lemma_line_start_past_end(s, total);
            assert(s =~= s.take(line_start(s, last + 1)) + rewritten(s, f, last + 1, total));
        }
        let mut k: usize = cuts.len();
        while k > 0
            invariant
                k <= cuts.len(),
                cuts.len() == last + 1 - first,
                size == s.len(),
                first <= last < total,
                total == line_total(s),
                s == st.text,
                f == outdenting(first as int, last as int),
                0 <= line_start(s, first + k) <= s.len(),
                forall|j: int|
                    0 <= j < cuts.len() ==> (#[trigger] cuts[j]).0 == line_start(s, first + j)
                        && cuts[j].1 == st.dedent_of(first + j) && cuts[j].0 + cuts[j].1
                        <= line_start(s, first + j + 1),
                self@ == (BufferState {
                    text: s.take(line_start(s, first + k)) + rewritten(s, f, first + k, total),
                    ..cp
                }),
            decreases k,
        {
            let ghost t = self@.text;
            let ghost p = line_start(s, first + k);
            k = k - 1;
            let (start, n) = cuts[k as usize];
            let ghost a = line_start(s, first + k);
            let ghost rest = rewritten(s, f, first + k + 1, total);
            let ghost line = line_text(s, first + k);
            proof {
                lemma_line_starts_increase(s, first + k);
                lemma_rewritten_first(s, f, first + k, total);
                assert(cuts[k as int].1 == dedent_len(line));
            }
            if n > 0 {
                rope_remove(&mut self.rope, start, start + n);
            }
            proof {
                assert(rope_text(self.rope) =~= s.take(a) + rewritten(s, f, first + k, total)) by {
                    assert(t.take(a) =~= s.take(a));
                    assert(t.skip(a + n) =~= line.skip(n as int) + rest);
                    assert(t =~= s.take(a) + (line + rest));
                    if n == 0 {
                        assert(line.skip(0) =~= line);
                    }
                }
            }
        }
        let ghost t = outdented_text(s, first as int, last as int);
        proof {
            lemma_rewritten_same(s, f, 0, first as int);
            lemma_rewritten_join(s, f, 0, first as int, total);
            lemma_line_start(s, 0);
            assert(s.take(line_start(s, first as int)) =~= s.subrange(
                line_start(s, 0),
                line_start(s, first as int),
            ));
            assert(self@.text =~= t);
        }
        if had_sel {
            self.select_lines(first, last);
        } else {
            proof {
                lemma_outdented_caret(st);
            }
            let gone: usize = if col >= own {
                col - own
            } else {
                0
            };
            let n: usize = rope_len_chars(&self.rope);
            self.cursor = rope_line_to_char(&self.rope, row) + gone;
            self.goal_col = self.cursor_col();
        }
        self.note_edit(EditKind::Delete);
        self.bump();
        assert(self@ =~= st.block_outdented());
    }
}

/// What outdenting takes from a line is spaces, or a tab.
proof fn lemma_dedent_blank(line: Seq<char>, j: int)
    requires
        0 <= j < dedent_len(line),
    ensures
        line[j] == ' ' || line[j] == '\t',
{
    lemma_fwd_while(line, 0, spaces());
    if !(line.len() > 0 && line[0] == '\t') {
        assert(spaces()(line[j]));
    }
}

/// Outdenting the one line of a bare caret leaves a place for the caret.
proof fn lemma_outdented_caret(st: BufferState)
    requires
        st.wf(),
        !st.primary().selecting(),
    ensures
        ({
            let row = line_of(st.text, st.cursor);
            let col = col_of(st.text, st.cursor);
            let t = outdented_text(st.text, row, row);
            let c = line_start(t, row) + greatest(0, col - st.dedent_of(row));
            &&& row < line_total(t)
            &&& 0 <= c <= t.len()
        }),
{
    let s = st.text;
    let row = line_of(s, st.cursor);
    let col = col_of(s, st.cursor);
    let total = line_total(s);
    let f = outdenting(row, row);
    let t = outdented_text(s, row, row);
    let a = line_start(s, row);
    let line = line_text(s, row);
    let n = st.dedent_of(row);
    let e = line_start(s, row + 1);
    lemma_line_around(s, st.cursor);
    lemma_line_start(s, row);
    lemma_line_starts_increase(s, row);
    lemma_dedent_len(line);
    lemma_line_start(s, 0);
    lemma_rewritten_same(s, f, 0, row);
    lemma_rewritten_same(s, f, row + 1, total);
    lemma_line_start_past_end(s, total);
    lemma_rewritten_join(s, f, 0, row, total);
    lemma_rewritten_first(s, f, row, total);
    assert(t =~= s.take(a) + line.skip(n) + s.skip(e));
    assert(t.take(a) =~= s.take(a));
    lemma_line_around(t, 0);
    if row > 0 {
        lemma_same_lines_before(s, t, a, a - 1);
        assert(line_of(s, a - 1) < row);
        assert(line_of(t, a - 1) == row - 1);
        assert(t[a - 1] == s[a - 1]) by {
            assert(t.take(a)[a - 1] == s.take(a)[a - 1]);
        }
        if line_ends_at(t, a) {
            lemma_first_on_line(t, row, a);
        } else {
            // A line feed now follows a carriage return: the line had nothing
            // but its indentation and the line feed.
            assert(s[a - 1] == '\r' && a < t.len() && t[a] == '\n');
            assert(line_of(t, a) == row - 1);
            assert(line_ends_at(t, a + 1));
            lemma_first_on_line(t, row, a + 1);
            if n == line.len() {
                assert(t[a] == s[e]);
                if row + 1 < total {
                    lemma_line_start(s, row + 1);
                    lemma_dedent_blank(line, n - 1);
                    assert(line[n - 1] == s[e - 1]);
                } else {
                    lemma_line_start_past_end(s, row + 1);
                }
                assert(false);
            }
            assert(t[a] == line.skip(n)[0]);
            assert(s[a + n] == '\n');
            assert(line_ends_at(s, a + n + 1));
            if a + n + 1 < e {
                lemma_inside_line(s, row, a + n + 1);
            }
            if st.cursor >= a + n + 1 {
                lemma_line_of_monotone(s, a, a + n);
                lemma_line_of_monotone(s, a + n + 1, st.cursor);
            }
        }
    } else {
        lemma_line_start(t, 0);
    }
}

/// A position on line `l` where a line starts is where that line starts.
proof fn lemma_first_on_line(s: Seq<char>, l: int, p: int)
    requires
        0 < p <= s.len(),
        line_ends_at(s, p),
        line_of(s, p) == l,
    ensures
        l < line_total(s),
        line_start(s, l) == p,
{
    lemma_line_of_monotone(s, p, s.len() as int);
    lemma_line_of_monotone(s, 0, p);
    lemma_line_start(s, l);
    let b = line_start(s, l);
    if b < p {
        lemma_line_of_monotone(s, b, p - 1);
    }
    if p < b {
        assert(line_of(s, p) < l);
    }
}

} // verus!
