//! Moving the carets.

use crate::buffer::carets::{
    all_carets, carets_view, flags_view, lemma_merged, lemma_primary_from, lemma_removed_apart,
    lemma_sorted_by, merge_carets, primary_index, sort_carets,
};
use crate::buffer::state::{
    back_while, cursor_key, fwd_while, merged, moved, next_word, onto_line, prev_word,
    primary_from, separators, sorted_by, to_line_end, unflagged, words, BufferState, CaretAt,
    Flagged, Move,
};
use crate::buffer::{Buffer, Caret};
use crate::chars::is_word_char;
use crate::lines::{
    col_of, lemma_line_around, lemma_line_starts_increase, line_len, line_of, line_start,
    line_total,
};
use crate::rope::{
    rope_char, rope_char_to_line, rope_len_chars, rope_len_lines, rope_line_to_char,
};
use vstd::prelude::*;

verus! {

/// Going back stays between the start of the text and the place it started from.
pub proof fn lemma_back_while(s: Seq<char>, i: int, f: spec_fn(char) -> bool)
    requires
        0 <= i <= s.len(),
    ensures
        0 <= back_while(s, i, f) <= i,
        back_while(s, i, f) > 0 ==> !f(s[back_while(s, i, f) - 1]),
        forall|k: int| back_while(s, i, f) <= k < i ==> f(#[trigger] s[k]),
    decreases i,
{
    if i > 0 && f(s[i - 1]) {
        lemma_back_while(s, i - 1, f);
    }
}

/// Going on stays between the place it started from and the end of the text.
pub proof fn lemma_fwd_while(s: Seq<char>, i: int, f: spec_fn(char) -> bool)
    requires
        0 <= i <= s.len(),
    ensures
        i <= fwd_while(s, i, f) <= s.len(),
        fwd_while(s, i, f) < s.len() ==> !f(s[fwd_while(s, i, f)]),
        forall|k: int| i <= k < fwd_while(s, i, f) ==> f(#[trigger] s[k]),
    decreases s.len() - i,
{
    if i < s.len() && f(s[i]) {
        lemma_fwd_while(s, i + 1, f);
    }
}

/// A word starts before the position that it is looked for from, unless that
/// is the start of the text.
pub proof fn lemma_prev_word(s: Seq<char>, i: int)
    requires
        0 <= i <= s.len(),
    ensures
        0 <= prev_word(s, i) <= i,
        prev_word(s, i) == i ==> i == 0,
{
    lemma_back_while(s, i, separators());
    lemma_back_while(s, back_while(s, i, separators()), words());
}

/// A word ends at or after the position that it is looked for from.
pub proof fn lemma_next_word(s: Seq<char>, i: int)
    requires
        0 <= i <= s.len(),
    ensures
        i <= next_word(s, i) <= s.len(),
        next_word(s, i) == i ==> i == s.len(),
{
    lemma_fwd_while(s, i, separators());
    lemma_fwd_while(s, fwd_while(s, i, separators()), words());
}

/// A movement keeps a caret in the text and keeps its anchor.
pub proof fn lemma_moved_within(s: Seq<char>, c: CaretAt, m: Move)
    requires
        0 <= c.cursor <= s.len(),
        0 <= c.goal_col,
    ensures
        0 <= moved(s, c, m).cursor <= s.len(),
        moved(s, c, m).anchor == c.anchor,
        0 <= moved(s, c, m).goal_col,
{
    let row = line_of(s, c.cursor);
    lemma_line_around(s, c.cursor);
    lemma_line_starts_increase(s, row);
    if row > 0 {
        lemma_line_starts_increase(s, row - 1);
    }
    if row + 1 < line_total(s) {
        lemma_line_starts_increase(s, row + 1);
    }
    lemma_prev_word(s, c.cursor);
    lemma_next_word(s, c.cursor);
    lemma_line_around(s, line_start(s, row) + line_len(s, row));
    lemma_line_around(s, prev_word(s, c.cursor));
    lemma_line_around(s, next_word(s, c.cursor));
    lemma_line_around(s, s.len() as int);
    if c.cursor > 0 {
        lemma_line_around(s, c.cursor - 1);
    }
    if c.cursor < s.len() {
        lemma_line_around(s, c.cursor + 1);
    }
}

/// Carets in their places are in the text, in order and apart.
pub proof fn lemma_installed_wf(st: BufferState, list: Seq<Flagged>)
    requires
        list.len() > 0,
        all_carets(list, |c: CaretAt| 0 <= c.cursor <= st.text.len()),
    ensures
        ({
            let r = st.installed(list);
            &&& 0 <= r.cursor <= r.text.len()
            &&& crate::buffer::state::carets_wf(r.carets, r.cursor, r.text.len() as int)
        }),
{
    let inside = |c: CaretAt| 0 <= c.cursor <= st.text.len();
    let sorted = sorted_by(list, cursor_key());
    lemma_sorted_by(list, cursor_key(), inside);
    lemma_merged(sorted, inside);
    let m = merged(sorted);
    lemma_primary_from(m, 0);
    let p = primary_from(m, 0);
    assert(inside(m[p].caret));
    assert(all_carets(m, |c: CaretAt| 0 <= c.cursor <= st.text.len() as int)) by {
        assert forall|i: int| 0 <= i < m.len() implies 0 <= (#[trigger] m[i]).caret.cursor
            <= st.text.len() by {
            assert(inside(m[i].caret));
        }
    }
    lemma_removed_apart(m, p, st.text.len() as int);
}

impl Buffer {
    /// The primary caret.
    pub(crate) fn this_caret(&self) -> (c: Caret)
        ensures
            c@ == self@.primary(),
    {
        Caret { cursor: self.cursor, anchor: self.anchor, goal_col: self.goal_col }
    }

    /// Make `c` the primary caret.
    pub(crate) fn load_caret(&mut self, c: Caret)
        ensures
            final(self)@ == old(self)@.with_primary(c@),
    {
        self.cursor = c.cursor;
        self.anchor = c.anchor;
        self.goal_col = c.goal_col;
    }

    /// All carets paired with a flag marking the primary one, which comes first.
    pub(crate) fn carets_flagged(&self) -> (v: Vec<(Caret, bool)>)
        ensures
            flags_view(v@) == self@.flagged(),
            v.len() == self.carets@.len() + 1,
    {
        let mut v: Vec<(Caret, bool)> = Vec::new();
        v.push((self.this_caret(), true));
        let mut i: usize = 0;
        while i < self.carets.len()
            invariant
                i <= self.carets.len(),
                v.len() == i + 1,
                v[0].0@ == self@.primary(),
                v[0].1,
                forall|k: int|
                    0 < k <= i ==> #[trigger] v[k] == (self.carets[k - 1], false),
            decreases self.carets.len() - i,
        {
            v.push((self.carets[i], false));
            i = i + 1;
        }
        assert(flags_view(v@) =~= self@.flagged());
        v
    }

    /// Put the carets of `list` in their places: sort, merge any that landed on
    /// the same position (keeping the primary flag), then set the primary apart.
    pub(crate) fn install_carets(&mut self, list: Vec<(Caret, bool)>)
        requires
            list.len() > 0,
        ensures
            final(self)@ == old(self)@.installed(flags_view(list@)),
    {
        let ghost all = flags_view(list@);
        let ghost st = self@;
        let sorted = sort_carets(&list, false);
        let mut kept = merge_carets(&sorted);
        proof {
            let any = |c: CaretAt| true;
            lemma_sorted_by(all, cursor_key(), any);
            lemma_merged(flags_view(sorted@), any);
            lemma_primary_from(flags_view(kept@), 0);
        }
        let ghost m = flags_view(kept@);
        let pi: usize = primary_index(&kept);
        let (prim, _flag) = kept.remove(pi);
        assert(prim@ == m[pi as int].caret);
        assert(flags_view(kept@) =~= m.remove(pi as int));
        self.load_caret(prim);
        let mut rest: Vec<Caret> = Vec::new();
        let mut i: usize = 0;
        while i < kept.len()
            invariant
                i <= kept.len(),
                rest.len() == i,
                forall|k: int| 0 <= k < i ==> #[trigger] rest[k] == kept[k].0,
            decreases kept.len() - i,
        {
            rest.push(kept[i].0);
            i = i + 1;
        }
        self.carets = rest;
        assert(carets_view(self.carets@) =~= unflagged(m.remove(pi as int)));
        assert(self@ =~= st.installed(all));
    }

    /// The start of the word at or just before `i`: back over any separators,
    /// then over the word itself.
    pub(crate) fn prev_word_start(&self, i: usize) -> (r: usize)
        requires
            i <= self@.text.len(),
        ensures
            r == prev_word(self@.text, i as int),
    {
        let mut p: usize = i;
        while p > 0 && !is_word_char(rope_char(&self.rope, p - 1))
            invariant
                p <= i <= self@.text.len(),
                back_while(self@.text, i as int, separators()) == back_while(
                    self@.text,
                    p as int,
                    separators(),
                ),
            decreases p,
        {
            p = p - 1;
        }
        let ghost mid = p as int;
        while p > 0 && is_word_char(rope_char(&self.rope, p - 1))
            invariant
                p <= i <= self@.text.len(),
                back_while(self@.text, mid, words()) == back_while(self@.text, p as int, words()),
            decreases p,
        {
            p = p - 1;
        }
        p
    }

    /// The end of the word at or just after `i`.
    pub(crate) fn next_word_end(&self, i: usize) -> (r: usize)
        requires
            i <= self@.text.len(),
        ensures
            r == next_word(self@.text, i as int),
    {
        let n: usize = rope_len_chars(&self.rope);
        let mut p: usize = i;
        while p < n && !is_word_char(rope_char(&self.rope, p))
            invariant
                p <= n,
                n == self@.text.len(),
                fwd_while(self@.text, i as int, separators()) == fwd_while(
                    self@.text,
                    p as int,
                    separators(),
                ),
            decreases n - p,
        {
            p = p + 1;
        }
        let ghost mid = p as int;
        while p < n && is_word_char(rope_char(&self.rope, p))
            invariant
                p <= n,
                n == self@.text.len(),
                fwd_while(self@.text, mid, words()) == fwd_while(self@.text, p as int, words()),
            decreases n - p,
        {
            p = p + 1;
        }
        p
    }

    /// `c` on line `target`, at its goal column or at the line's end.
    fn on_line(&self, c: Caret, target: usize) -> (r: Caret)
        requires
            target < line_total(self@.text),
        ensures
            r@ == onto_line(self@.text, c@, target as int),
    {
        proof {
            lemma_line_starts_increase(self@.text, target as int);
        }
        let len: usize = self.line_len_chars(target);
        let col: usize = if c.goal_col <= len {
            c.goal_col
        } else {
            len
        };
        let n: usize = rope_len_chars(&self.rope);
        Caret { cursor: rope_line_to_char(&self.rope, target) + col, ..c }
    }

    /// `c` at the end of its line.
    fn at_line_end(&self, c: Caret) -> (r: Caret)
        requires
            c.cursor <= self@.text.len(),
        ensures
            r@ == to_line_end(self@.text, c@),
    {
        let row: usize = rope_char_to_line(&self.rope, c.cursor);
        proof {
            lemma_line_around(self@.text, c.cursor as int);
            lemma_line_starts_increase(self@.text, row as int);
        }
        let n: usize = rope_len_chars(&self.rope);
        let pos: usize = rope_line_to_char(&self.rope, row) + self.line_len_chars(row);
        Caret { cursor: pos, goal_col: self.col_of(pos), ..c }
    }

    /// Where the movement `m` takes the caret `c`.
    pub fn moved_caret(&self, c: Caret, m: Move) -> (r: Caret)
        requires
            c.cursor <= self@.text.len(),
        ensures
            r@ == moved(self@.text, c@, m),
            r.cursor <= self@.text.len(),
    {
        proof {
            lemma_moved_within(self@.text, c@, m);
            lemma_line_around(self@.text, c.cursor as int);
            lemma_prev_word(self@.text, c.cursor as int);
            lemma_next_word(self@.text, c.cursor as int);
        }
        let n: usize = rope_len_chars(&self.rope);
        match m {
            Move::Left => if c.cursor > 0 {
                Caret { cursor: c.cursor - 1, goal_col: self.col_of(c.cursor - 1), ..c }
            } else {
                c
            },
            Move::Right => if c.cursor < n {
                Caret { cursor: c.cursor + 1, goal_col: self.col_of(c.cursor + 1), ..c }
            } else {
                c
            },
            Move::Up => {
                let row: usize = rope_char_to_line(&self.rope, c.cursor);
                if row == 0 {
                    Caret { cursor: 0, goal_col: 0, ..c }
                } else {
                    self.on_line(c, row - 1)
                }
            },
            Move::Down => {
                let row: usize = rope_char_to_line(&self.rope, c.cursor);
                let lines: usize = rope_len_lines(&self.rope);
                if row >= lines - 1 {
                    self.at_line_end(c)
                } else {
                    self.on_line(c, row + 1)
                }
            },
            Move::Home => {
                let row: usize = rope_char_to_line(&self.rope, c.cursor);
                Caret { cursor: rope_line_to_char(&self.rope, row), goal_col: 0, ..c }
            },
            Move::End => self.at_line_end(c),
            Move::WordLeft => {
                let pos: usize = self.prev_word_start(c.cursor);
                Caret { cursor: pos, goal_col: self.col_of(pos), ..c }
            },
            Move::WordRight => {
                let pos: usize = self.next_word_end(c.cursor);
                Caret { cursor: pos, goal_col: self.col_of(pos), ..c }
            },
            Move::DocStart => Caret { cursor: 0, goal_col: 0, ..c },
            Move::DocEnd => Caret { cursor: n, goal_col: self.col_of(n), ..c },
        }
    }

    /// Apply a movement to every caret, then merge any that collided.
    pub fn each_caret_move(&mut self, m: Move)
        requires
            old(self)@.wf(),
        ensures
            final(self)@ == old(self)@.each_moved(m),
            final(self)@.wf(),
    {
        let ghost st = self@;
        if self.carets.len() == 0 {
            let c = self.moved_caret(self.this_caret(), m);
            self.load_caret(c);
            return;
        }
        let all = self.carets_flagged();
        let mut out: Vec<(Caret, bool)> = Vec::new();
        let mut i: usize = 0;
        let ghost target = Seq::new(
            st.flagged().len(),
            |k: int|
                Flagged {
                    caret: moved(st.text, st.flagged()[k].caret, m),
                    primary: st.flagged()[k].primary,
                },
        );
        while i < all.len()
            invariant
                i <= all.len(),
                self@ == st,
                st.wf(),
                flags_view(all@) == st.flagged(),
                all.len() == st.carets.len() + 1,
                out.len() == i,
                target == Seq::new(
                    st.flagged().len(),
                    |k: int|
                        Flagged {
                            caret: moved(st.text, st.flagged()[k].caret, m),
                            primary: st.flagged()[k].primary,
                        },
                ),
                forall|k: int|
                    0 <= k < i ==> (#[trigger] out[k]).0@ == target[k].caret && out[k].1
                        == target[k].primary && 0 <= target[k].caret.cursor <= st.text.len(),
            decreases all.len() - i,
        {
            let (c, p) = all[i];
            assert(st.flagged()[i as int] == Flagged { caret: c@, primary: p });
            assert(c.cursor <= st.text.len()) by {
                if i > 0 {
                    assert(c@ == st.carets[i - 1]);
                }
            }
            out.push((self.moved_caret(c, m), p));
            i = i + 1;
        }
        assert(flags_view(out@) =~= target);
        self.install_carets(out);
        proof {
            assert(all_carets(target, |c: CaretAt| 0 <= c.cursor <= st.text.len()));
            lemma_installed_wf(st, target);
        }
    }

    pub fn move_left(&mut self)
        requires
            old(self)@.wf(),
        ensures
            final(self)@ == old(self)@.each_moved(Move::Left),
            final(self)@.wf(),
    {
        self.each_caret_move(Move::Left);
    }

    pub fn move_right(&mut self)
        requires
            old(self)@.wf(),
        ensures
            final(self)@ == old(self)@.each_moved(Move::Right),
            final(self)@.wf(),
    {
        self.each_caret_move(Move::Right);
    }

    pub fn move_up(&mut self)
        requires
            old(self)@.wf(),
        ensures
            final(self)@ == old(self)@.each_moved(Move::Up),
            final(self)@.wf(),
    {
        self.each_caret_move(Move::Up);
    }

    pub fn move_down(&mut self)
        requires
            old(self)@.wf(),
        ensures
            final(self)@ == old(self)@.each_moved(Move::Down),
            final(self)@.wf(),
    {
        self.each_caret_move(Move::Down);
    }

    pub fn move_home(&mut self)
        requires
            old(self)@.wf(),
        ensures
            final(self)@ == old(self)@.each_moved(Move::Home),
            final(self)@.wf(),
    {
        self.each_caret_move(Move::Home);
    }

    pub fn move_end(&mut self)
        requires
            old(self)@.wf(),
        ensures
            final(self)@ == old(self)@.each_moved(Move::End),
            final(self)@.wf(),
    {
        self.each_caret_move(Move::End);
    }

    pub fn move_word_left(&mut self)
        requires
            old(self)@.wf(),
        ensures
            final(self)@ == old(self)@.each_moved(Move::WordLeft),
            final(self)@.wf(),
    {
        self.each_caret_move(Move::WordLeft);
    }

    pub fn move_word_right(&mut self)
        requires
            old(self)@.wf(),
        ensures
            final(self)@ == old(self)@.each_moved(Move::WordRight),
            final(self)@.wf(),
    {
        self.each_caret_move(Move::WordRight);
    }

    pub fn move_doc_start(&mut self)
        requires
            old(self)@.wf(),
        ensures
            final(self)@ == old(self)@.each_moved(Move::DocStart),
            final(self)@.wf(),
    {
        self.each_caret_move(Move::DocStart);
    }

    pub fn move_doc_end(&mut self)
        requires
            old(self)@.wf(),
        ensures
            final(self)@ == old(self)@.each_moved(Move::DocEnd),
            final(self)@.wf(),
    {
        self.each_caret_move(Move::DocEnd);
    }
}

} // verus!
