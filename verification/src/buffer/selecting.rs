//! Selecting text, and adding carets.

use crate::buffer::carets::{carets_view, flags_view, lemma_placed, lemma_without, sort_carets};
use crate::buffer::moves::lemma_fwd_while;
use crate::buffer::state::{
    anchor_or_here, back_while, carets_wf, furthest, fwd_while, has_selection, joined, least,
    nearest, next_free, occurs_at, placed, reach, run_of, selections_of, sorted_by, start_key,
    starts, strictly_placed, without, wrapped, BufferState, CaretAt, Flagged,
};
use crate::buffer::{opt_int, opt_text, Buffer, Caret};
use crate::chars::is_word_char;
use crate::lines::{
    col_of, lemma_line_around, lemma_line_start_past_end, lemma_line_starts_increase, line_of,
    line_start, line_total,
};
use crate::rope::{
    rope_char, rope_char_to_line, rope_chars, rope_len_chars, rope_len_lines, rope_line_to_char,
    rope_slice,
};
use crate::strings::chars_of;
use vstd::prelude::*;
use vstd::string::*;

verus! {

/// Positions as numbers.
pub open spec fn ints(v: Seq<usize>) -> Seq<int> {
    Seq::new(v.len(), |i: int| v[i] as int)
}

/// Whether `nee` stands in `hay` at `p`.
fn stands_at(hay: &Vec<char>, nee: &Vec<char>, p: usize) -> (r: bool)
    requires
        p <= hay.len(),
    ensures
        r == occurs_at(hay@, nee@, p as int),
{
    if nee.len() > hay.len() - p {
        return false;
    }
    let mut k: usize = 0;
    while k < nee.len()
        invariant
            k <= nee.len() <= hay.len() - p,
            forall|j: int| 0 <= j < k ==> #[trigger] nee@[j] == hay@[p + j],
        decreases nee.len() - k,
    {
        if nee[k] != hay[p + k] {
            assert(hay@.subrange(p as int, p + nee@.len())[k as int] != nee@[k as int]);
            return false;
        }
        k = k + 1;
    }
    assert(hay@.subrange(p as int, p + nee@.len()) =~= nee@);
    true
}

/// A new primary caret keeps the carets in the text, in order and apart.
pub proof fn lemma_promoted_wf(st: BufferState, anchor: Option<int>, pos: int, goal: int)
    requires
        st.wf(),
        0 <= pos <= st.text.len(),
    ensures
        st.promoted(anchor, pos, goal).wf(),
{
    let len = st.text.len() as int;
    let all = placed(st.carets, st.primary());
    lemma_placed_strict(st.carets, st.primary(), len);
    lemma_without(all, pos, len);
}

proof fn lemma_placed_strict(carets: Seq<CaretAt>, c: CaretAt, len: int)
    requires
        carets_wf(carets, c.cursor, len),
        0 <= c.cursor <= len,
    ensures
        strictly_placed(placed(carets, c)),
        placed(carets, c).len() == carets.len() + 1,
        forall|i: int|
            0 <= i < placed(carets, c).len() ==> 0 <= (#[trigger] placed(carets, c)[i]).cursor
                <= len,
        placed(carets, c).last().cursor == c.cursor || (carets.len() > 0 && placed(
            carets,
            c,
        ).last() == carets.last()),
    decreases carets.len(),
{
    if carets.len() == 0 || carets.last().cursor <= c.cursor {
        if carets.len() > 0 {
            assert(carets[carets.len() - 1].cursor != c.cursor);
        }
        let r = carets.push(c);
        assert forall|i: int, j: int| 0 <= i < j < r.len() implies r[i].cursor < r[j].cursor by {
            if j == carets.len() && i < carets.len() - 1 {
                assert(carets[i].cursor < carets[carets.len() - 1].cursor);
            }
        }
    } else {
        let front = carets.drop_last();
        assert(carets_wf(front, c.cursor, len)) by {
            assert forall|i: int, j: int| 0 <= i < j < front.len() implies front[i].cursor
                < front[j].cursor by {
                assert(carets[i].cursor < carets[j].cursor);
            }
            assert forall|i: int| 0 <= i < front.len() implies 0 <= (#[trigger] front[i]).cursor
                <= len && front[i].cursor != c.cursor by {
                assert(carets[i] == front[i]);
            }
        }
        lemma_placed_strict(front, c, len);
        let f = placed(front, c);
        let r = f.push(carets.last());
        assert(f.last().cursor < carets.last().cursor) by {
            if f.last().cursor != c.cursor {
                assert(carets[front.len() - 1].cursor < carets[front.len() as int].cursor);
            }
        }
        assert forall|i: int, j: int| 0 <= i < j < r.len() implies r[i].cursor < r[j].cursor by {
            if j == f.len() && i < f.len() - 1 {
                assert(f[i].cursor < f[f.len() - 1].cursor);
            }
        }
        assert forall|i: int| 0 <= i < r.len() implies 0 <= (#[trigger] r[i]).cursor <= len by {
            if i == f.len() {
                assert(carets[carets.len() - 1].cursor <= len);
            }
        }
    }
}

/// The last selection of carets in the text ends in the text.
proof fn lemma_reach(list: Seq<Flagged>, len: int)
    requires
        0 <= len,
        forall|i: int| 0 <= i < list.len() ==> 0 <= (#[trigger] list[i]).caret.end() <= len,
    ensures
        0 <= reach(list) <= len,
    decreases list.len(),
{
    if list.len() > 0 {
        assert forall|i: int| 0 <= i < list.drop_last().len() implies 0 <= (#[trigger]
        list.drop_last()[i]).caret.end() <= len by {
            assert(list.drop_last()[i] == list[i]);
        }
        lemma_reach(list.drop_last(), len);
        assert(list[list.len() - 1] == list.last());
    }
}

proof fn lemma_next_free(
    hay: Seq<char>,
    nee: Seq<char>,
    from: int,
    taken: Seq<int>,
    off: int,
)
    requires
        0 <= off,
    ensures
        next_free(hay, nee, from, taken, off) matches Some(p) ==> occurs_at(hay, nee, p)
            && !taken.contains(p),
    decreases hay.len() - off,
{
    let p = wrapped(from, off, hay.len() as int);
    if off < hay.len() && !(occurs_at(hay, nee, p) && !taken.contains(p)) {
        lemma_next_free(hay, nee, from, taken, off + 1);
    }
}

impl Buffer {
    /// Whether any secondary carets are active.
    pub fn has_extra_carets(&self) -> (r: bool)
        ensures
            r == (self@.carets.len() > 0),
    {
        self.carets.len() > 0
    }

    /// Total number of carets, the primary one and the others.
    pub fn caret_count(&self) -> (r: usize)
        requires
            self@.carets.len() < usize::MAX,
        ensures
            r == self@.carets.len() + 1,
    {
        1 + self.carets.len()
    }

    /// The secondary carets.
    pub fn extra_carets(&self) -> (r: &[Caret])
        ensures
            carets_view(r@) == self@.carets,
    {
        self.carets.as_slice()
    }

    /// Collapse back to the single primary caret. Returns whether anything was
    /// removed.
    pub fn clear_extra_carets(&mut self) -> (r: bool)
        ensures
            final(self)@ == (BufferState { carets: Seq::empty(), ..old(self)@ }),
            r == (old(self)@.carets.len() > 0),
            old(self)@.wf() ==> final(self)@.wf(),
    {
        let had = self.carets.len() > 0;
        self.carets.clear();
        assert(carets_view(self.carets@) =~= Seq::empty());
        had
    }

    /// The primary caret's selected text.
    fn primary_selection_text(&self) -> (r: Option<String>)
        requires
            self@.wf(),
            self@.selection_ok(),
        ensures
            opt_text(r) == self@.primary_text(),
    {
        match self.selection() {
            Some((s, e)) => Some(rope_slice(&self.rope, s, e)),
            None => None,
        }
    }

    /// The selected text, or `None` when nothing is selected. With multiple
    /// carets, each caret's selection is joined top to bottom with newlines.
    pub fn selected_text(&self) -> (r: Option<String>)
        requires
            self@.wf(),
            self@.selections_ok(),
        ensures
            opt_text(r) == self@.selection_text(),
    {
        if self.carets.len() == 0 {
            return self.primary_selection_text();
        }
        let ghost st = self@;
        let ghost all_v = st.flagged();
        let all = self.carets_flagged();
        let mut sel: Vec<(Caret, bool)> = Vec::new();
        let mut i: usize = 0;
        proof {
            reveal(Seq::filter);
            assert(all_v.take(0) =~= Seq::empty());
            assert(flags_view(sel@) =~= Seq::empty());
        }
        while i < all.len()
            invariant
                i <= all.len(),
                flags_view(all@) == all_v,
                flags_view(sel@) == selections_of(all_v.take(i as int)),
            decreases all.len() - i,
        {
            let x = all[i];
            let ghost before = flags_view(sel@);
            let (a, e) = x.0.bounds();
            proof {
                reveal(Seq::filter);
                assert(all_v.take(i + 1).drop_last() =~= all_v.take(i as int));
                assert(all_v.take(i + 1).last() == Flagged { caret: x.0@, primary: x.1 });
            }
            if e > a {
                sel.push(x);
                assert(flags_view(sel@) =~= before.push(Flagged { caret: x.0@, primary: x.1 }));
            }
            i = i + 1;
        }
        assert(all_v.take(i as int) =~= all_v);
        if sel.len() == 0 {
            assert(sorted_by(flags_view(sel@), start_key()).len() == 0);
            return None;
        }
        let sorted = sort_carets(&sel, true);
        let ghost list = flags_view(sorted@);
        proof {
            let ok = |c: CaretAt| 0 <= c.start() <= c.end() <= st.text.len();
            assert forall|k: int| 0 <= k < all_v.len() implies ok((#[trigger] all_v[k]).caret) by {
                if k > 0 {
                    assert(all_v[k].caret == st.carets[k - 1]);
                    assert(crate::buffer::state::selects_within(
                        st.carets[k - 1],
                        st.text.len() as int,
                    ));
                }
            }
            crate::buffer::carets::lemma_filter_keeps(all_v, has_selection(), ok);
            crate::buffer::carets::lemma_sorted_by(flags_view(sel@), start_key(), ok);
            assert forall|k: int| 0 <= k < list.len() implies 0 <= (#[trigger] list[k]).caret.start()
                <= list[k].caret.end() <= st.text.len() by {
                assert(ok(list[k].caret));
            }
        }
        let mut text = String::new();
        let mut i: usize = 0;
        assert(list.take(0) =~= Seq::empty());
        while i < sorted.len()
            invariant
                i <= sorted.len(),
                list == flags_view(sorted@),
                self@ == st,
                forall|k: int|
                    0 <= k < list.len() ==> 0 <= (#[trigger] list[k]).caret.start()
                        <= list[k].caret.end() <= st.text.len(),
                text@ == joined(st.text, list.take(i as int)),
            decreases sorted.len() - i,
        {
            let (a, e) = sorted[i].0.bounds();
            assert(list[i as int].caret == sorted[i as int].0@);
            let own = rope_slice(&self.rope, a, e);
            proof {
                assert(list.take(i + 1).drop_last() =~= list.take(i as int));
                assert(list.take(i + 1).last() == list[i as int]);
            }
            if i > 0 {
                text.push('\n');
            }
            let ghost before = text@;
            text.append(own.as_str());
            assert(text@ =~= joined(st.text, list.take(i + 1)));
            i = i + 1;
        }
        assert(list.take(i as int) =~= list);
        Some(text)
    }

    /// Only the primary caret, from `anchor` to `cursor`.
    fn select(&mut self, anchor: usize, cursor: usize)
        requires
            old(self)@.wf(),
            cursor <= old(self)@.text.len(),
        ensures
            final(self)@ == old(self)@.selected(anchor as int, cursor as int),
            final(self)@.wf(),
    {
        self.carets.clear();
        assert(carets_view(self.carets@) =~= Seq::empty());
        self.anchor = Some(anchor);
        self.cursor = cursor;
        self.goal_col = self.cursor_col();
    }

    /// Select the whole buffer.
    pub fn select_all(&mut self)
        requires
            old(self)@.wf(),
        ensures
            final(self)@ == old(self)@.selected(0, old(self)@.text.len() as int),
            final(self)@.wf(),
    {
        let n: usize = rope_len_chars(&self.rope);
        self.select(0, n);
    }

    /// Select the character range `[start, end)` and put the cursor at `end`,
    /// both as far as the text reaches.
    pub fn select_range(&mut self, start: usize, end: usize)
        requires
            old(self)@.wf(),
        ensures
            final(self)@ == old(self)@.selected(
                least(start as int, old(self)@.text.len() as int),
                least(end as int, old(self)@.text.len() as int),
            ),
            final(self)@.wf(),
    {
        let n: usize = rope_len_chars(&self.rope);
        let a: usize = if start <= n {
            start
        } else {
            n
        };
        let e: usize = if end <= n {
            end
        } else {
            n
        };
        self.select(a, e);
    }

    /// Drop any active selection, on every caret.
    pub fn clear_selection(&mut self)
        ensures
            final(self)@ == old(self)@.deselected(),
            old(self)@.wf() ==> final(self)@.wf(),
    {
        let ghost st = self@;
        self.anchor = None;
        let mut i: usize = 0;
        while i < self.carets.len()
            invariant
                i <= self.carets.len(),
                self.carets.len() == st.carets.len(),
                self@ == (BufferState { anchor: None, carets: self@.carets, ..st }),
                forall|k: int| i <= k < self.carets.len() ==> #[trigger] self.carets[k]@ == st.carets[k],
                forall|k: int|
                    0 <= k < i ==> #[trigger] self.carets[k]@ == (CaretAt {
                        anchor: None,
                        ..st.carets[k]
                    }),
            decreases self.carets.len() - i,
        {
            let c = self.carets[i];
            assert(c@ == st.carets[i as int]);
            self.carets.set(i, Caret { anchor: None, ..c });
            i = i + 1;
        }
        assert(self@.carets =~= st.deselected().carets);
        proof {
            if st.wf() {
                let d = st.deselected();
                assert forall|k: int, j: int| 0 <= k < j < d.carets.len() implies
                    d.carets[k].cursor < d.carets[j].cursor by {
                    assert(st.carets[k].cursor < st.carets[j].cursor);
                }
                assert forall|k: int| 0 <= k < d.carets.len() implies 0 <= (#[trigger]
                d.carets[k]).cursor <= d.text.len() && d.carets[k].cursor != d.cursor by {
                    assert(st.carets[k].cursor <= st.text.len());
                }
            }
        }
    }

    /// Begin, or keep, a selection anchored at each caret, before a movement
    /// that is to extend it.
    pub fn begin_selection(&mut self)
        ensures
            final(self)@ == old(self)@.anchored(),
            old(self)@.wf() ==> final(self)@.wf(),
    {
        let ghost st = self@;
        if self.anchor.is_none() {
            self.anchor = Some(self.cursor);
        }
        let mut i: usize = 0;
        while i < self.carets.len()
            invariant
                i <= self.carets.len(),
                self.carets.len() == st.carets.len(),
                self@ == (BufferState {
                    anchor: anchor_or_here(st.primary()),
                    carets: self@.carets,
                    ..st
                }),
                forall|k: int| i <= k < self.carets.len() ==> #[trigger] self.carets[k]@ == st.carets[k],
                forall|k: int|
                    0 <= k < i ==> #[trigger] self.carets[k]@ == (CaretAt {
                        anchor: anchor_or_here(st.carets[k]),
                        ..st.carets[k]
                    }),
            decreases self.carets.len() - i,
        {
            let c = self.carets[i];
            assert(c@ == st.carets[i as int]);
            if c.anchor.is_none() {
                self.carets.set(i, Caret { anchor: Some(c.cursor), ..c });
            }
            i = i + 1;
        }
        assert(self@.carets =~= st.anchored().carets);
        proof {
            if st.wf() {
                let d = st.anchored();
                assert forall|k: int, j: int| 0 <= k < j < d.carets.len() implies
                    d.carets[k].cursor < d.carets[j].cursor by {
                    assert(st.carets[k].cursor < st.carets[j].cursor);
                }
                assert forall|k: int| 0 <= k < d.carets.len() implies 0 <= (#[trigger]
                d.carets[k]).cursor <= d.text.len() && d.carets[k].cursor != d.cursor by {
                    assert(st.carets[k].cursor <= st.text.len());
                }
            }
        }
    }

    /// Select the word (or the run of separators) under `idx`. Never crosses a
    /// line feed.
    pub fn select_word_at(&mut self, idx: usize)
        requires
            old(self)@.wf(),
        ensures
            final(self)@ == if old(self)@.text.len() == 0 {
                BufferState { carets: Seq::empty(), anchor: Some(0), cursor: 0, ..old(self)@ }
            } else {
                old(self)@.word_selected(least(idx as int, old(self)@.text.len() - 1))
            },
            final(self)@.wf(),
    {
        let n: usize = rope_len_chars(&self.rope);
        if n == 0 {
            self.carets.clear();
            assert(carets_view(self.carets@) =~= Seq::empty());
            self.anchor = Some(0);
            self.cursor = 0;
            return;
        }
        let i: usize = if idx <= n - 1 {
            idx
        } else {
            n - 1
        };
        let ghost text = self@.text;
        let wordy: bool = is_word_char(rope_char(&self.rope, i));
        let ghost run = run_of(wordy);
        proof {
            lemma_fwd_while(text, i as int, run);
        }
        let mut s: usize = i;
        let mut e: usize = i;
        while s > 0 && self.in_run(s - 1, wordy)
            invariant
                s <= i < n,
                n == text.len(),
                text == self@.text,
                run == run_of(wordy),
                back_while(text, i as int, run) == back_while(text, s as int, run),
            decreases s,
        {
            s = s - 1;
        }
        while e < n && self.in_run(e, wordy)
            invariant
                e <= n,
                n == text.len(),
                text == self@.text,
                run == run_of(wordy),
                fwd_while(text, i as int, run) == fwd_while(text, e as int, run),
            decreases n - e,
        {
            e = e + 1;
        }
        self.select(s, e);
    }

    /// Whether the character at `i` is of the given class and no line feed.
    fn in_run(&self, i: usize, wordy: bool) -> (r: bool)
        requires
            i < self@.text.len(),
        ensures
            r == run_of(wordy)(self@.text[i as int]),
    {
        let c = rope_char(&self.rope, i);
        c != '\n' && is_word_char(c) == wordy
    }

    /// Select the whole line that `idx` is on, with its break.
    pub fn select_line_at(&mut self, idx: usize)
        requires
            old(self)@.wf(),
        ensures
            final(self)@ == ({
                let st = old(self)@;
                let l = line_of(st.text, least(idx as int, st.text.len() as int));
                st.selected(line_start(st.text, l), line_start(st.text, l + 1))
            }),
            final(self)@.wf(),
    {
        let n: usize = rope_len_chars(&self.rope);
        let at: usize = if idx <= n {
            idx
        } else {
            n
        };
        let line: usize = rope_char_to_line(&self.rope, at);
        proof {
            lemma_line_around(self@.text, at as int);
            lemma_line_starts_increase(self@.text, line as int);
        }
        let start: usize = rope_line_to_char(&self.rope, line);
        let lines: usize = rope_len_lines(&self.rope);
        let end: usize = if line < lines - 1 {
            rope_line_to_char(&self.rope, line + 1)
        } else {
            proof {
                lemma_line_start_past_end(self@.text, line + 1);
            }
            n
        };
        self.select(start, end);
    }

    /// Make a new caret the primary one, with the old primary among the others;
    /// a caret that stood there already goes.
    fn promote_new_caret(&mut self, start: Option<usize>, end: usize, goal: usize)
        requires
            old(self)@.wf(),
            end <= old(self)@.text.len(),
        ensures
            final(self)@ == old(self)@.promoted(opt_int(start), end as int, goal as int),
            final(self)@.wf(),
    {
        let ghost st = self@;
        let prior = self.this_caret();
        let mut j: usize = self.carets.len();
        while j > 0 && self.carets[j - 1].cursor > prior.cursor
            invariant
                j <= self.carets.len(),
                self@ == st,
                forall|k: int|
                    j <= k < st.carets.len() ==> (#[trigger] st.carets[k]).cursor > prior.cursor,
            decreases j,
        {
            j = j - 1;
            assert(st.carets[j as int] == self.carets[j as int]@);
        }
        proof {
            if j > 0 {
                assert(st.carets[j - 1] == self.carets[j - 1]@);
            }
            lemma_placed(st.carets, prior@, j as int);
        }
        self.carets.insert(j, prior);
        let ghost all = carets_view(self.carets@);
        assert(all =~= placed(st.carets, st.primary()));
        let mut kept: Vec<Caret> = Vec::new();
        let mut i: usize = 0;
        proof {
            reveal(Seq::filter);
            assert(all.take(0) =~= Seq::empty());
            assert(carets_view(kept@) =~= Seq::empty());
        }
        while i < self.carets.len()
            invariant
                i <= self.carets.len(),
                all == carets_view(self.carets@),
                carets_view(kept@) == without(all.take(i as int), end as int),
            decreases self.carets.len() - i,
        {
            let c = self.carets[i];
            let ghost before = carets_view(kept@);
            proof {
                reveal(Seq::filter);
                assert(all.take(i + 1).drop_last() =~= all.take(i as int));
                assert(all.take(i + 1).last() == c@);
            }
            if c.cursor != end {
                kept.push(c);
                assert(carets_view(kept@) =~= before.push(c@));
            }
            i = i + 1;
        }
        assert(all.take(i as int) =~= all);
        self.carets = kept;
        self.cursor = end;
        self.anchor = start;
        self.goal_col = goal;
        proof {
            lemma_promoted_wf(st, opt_int(start), end as int, goal as int);
        }
    }

    /// Drop a new caret at `pos` (column `goal`), making it the primary one.
    pub fn add_caret_at(&mut self, pos: usize, goal: usize)
        requires
            old(self)@.wf(),
            pos <= old(self)@.text.len(),
        ensures
            final(self)@ == old(self)@.promoted(None, pos as int, goal as int),
            final(self)@.wf(),
    {
        self.promote_new_caret(None, pos, goal);
    }

    /// A new primary caret on line `target`, in the column of `base`.
    fn add_caret_on(&mut self, base: Caret, target: usize)
        requires
            old(self)@.wf(),
            base.cursor <= old(self)@.text.len(),
            target < line_total(old(self)@.text),
        ensures
            final(self)@ == old(self)@.caret_added_on(base@, target as int),
            final(self)@.wf(),
    {
        let own: usize = self.col_of(base.cursor);
        let col: usize = if base.goal_col >= own {
            base.goal_col
        } else {
            own
        };
        proof {
            lemma_line_starts_increase(self@.text, target as int);
        }
        let len: usize = self.line_len_chars(target);
        let off: usize = if col <= len {
            col
        } else {
            len
        };
        let n: usize = rope_len_chars(&self.rope);
        let pos: usize = rope_line_to_char(&self.rope, target) + off;
        self.promote_new_caret(None, pos, col);
    }

    /// The furthest, or the nearest, caret.
    fn outer_caret(&self, far: bool) -> (r: Caret)
        requires
            self@.wf(),
        ensures
            r@ == if far {
                furthest(self@.flagged())
            } else {
                nearest(self@.flagged())
            },
            r.cursor <= self@.text.len(),
    {
        let all = self.carets_flagged();
        let ghost list = self@.flagged();
        assert(list[0] == Flagged { caret: all[0].0@, primary: all[0].1 });
        let mut r = all[0].0;
        let mut i: usize = 1;
        assert(list.take(1)[0] == list[0]);
        while i < all.len()
            invariant
                1 <= i <= all.len(),
                list == self@.flagged(),
                self@.wf(),
                list == flags_view(all@),
                all.len() == self@.carets.len() + 1,
                r.cursor <= self@.text.len(),
                r@ == if far {
                    furthest(list.take(i as int))
                } else {
                    nearest(list.take(i as int))
                },
            decreases all.len() - i,
        {
            let c = all[i].0;
            proof {
                assert(list[i as int].caret == c@);
                assert(c@ == self@.carets[i - 1]);
                assert(list.take(i + 1).drop_last() =~= list.take(i as int));
                assert(list.take(i + 1).last() == list[i as int]);
            }
            if far {
                if c.cursor >= r.cursor {
                    r = c;
                }
            } else {
                if c.cursor < r.cursor {
                    r = c;
                }
            }
            i = i + 1;
        }
        assert(list.take(i as int) =~= list);
        r
    }

    /// Add a caret one line below the lowest caret, in the same column.
    pub fn add_caret_below(&mut self)
        requires
            old(self)@.wf(),
        ensures
            final(self)@ == ({
                let st = old(self)@;
                let base = furthest(st.flagged());
                let row = line_of(st.text, base.cursor);
                if row + 1 < line_total(st.text) {
                    st.caret_added_on(base, row + 1)
                } else {
                    st
                }
            }),
            final(self)@.wf(),
    {
        let base = self.outer_caret(true);
        let row: usize = rope_char_to_line(&self.rope, base.cursor);
        let lines: usize = rope_len_lines(&self.rope);
        proof {
            lemma_line_around(self@.text, base.cursor as int);
        }
        if row >= lines - 1 {
            return;
        }
        self.add_caret_on(base, row + 1);
    }

    /// Add a caret one line above the highest caret, in the same column.
    pub fn add_caret_above(&mut self)
        requires
            old(self)@.wf(),
        ensures
            final(self)@ == ({
                let st = old(self)@;
                let base = nearest(st.flagged());
                let row = line_of(st.text, base.cursor);
                if row > 0 {
                    st.caret_added_on(base, row - 1)
                } else {
                    st
                }
            }),
            final(self)@.wf(),
    {
        let base = self.outer_caret(false);
        let row: usize = rope_char_to_line(&self.rope, base.cursor);
        proof {
            lemma_line_around(self@.text, base.cursor as int);
        }
        if row == 0 {
            return;
        }
        self.add_caret_on(base, row - 1);
    }

    /// Find `needle` from position `from` on, starting over at the end, at a
    /// place that is not in `taken`. Returns where it starts.
    fn find_from(&self, needle: &str, from: usize, taken: &Vec<usize>) -> (r: Option<usize>)
        requires
            from <= self@.text.len(),
            needle@.len() > 0,
        ensures
            opt_int(r) == next_free(
                self@.text,
                needle@,
                from as int,
                ints(taken@),
                0,
            ),
    {
        let hay = rope_chars(&self.rope);
        let nee = chars_of(needle);
        let n: usize = hay.len();
        let ghost text = self@.text;
        let ghost tk = ints(taken@);
        let mut off: usize = 0;
        while off < n
            invariant
                off <= n,
                n == text.len(),
                text == self@.text,
                hay@ == text,
                nee@ == needle@,
                from <= n,
                tk == ints(taken@),
                next_free(text, needle@, from as int, tk, 0) == next_free(
                    text,
                    needle@,
                    from as int,
                    tk,
                    off as int,
                ),
            decreases n - off,
        {
            let start: usize = if off < n - from {
                from + off
            } else {
                off - (n - from)
            };
            if stands_at(&hay, &nee, start) && !holds(taken, start) {
                assert(!tk.contains(start as int)) by {
                    if tk.contains(start as int) {
                        let k = choose|k: int| 0 <= k < tk.len() && tk[k] == start as int;
                        assert(taken@[k] == start);
                    }
                }
                return Some(start);
            }
            proof {
                if taken@.contains(start) {
                    let k = choose|k: int| 0 <= k < taken@.len() && taken@[k] == start;
                    assert(tk[k] == start as int);
                }
            }
            off = off + 1;
        }
        None
    }

    /// Select the next occurrence of the current selection with a new caret.
    /// With nothing selected, select the word at the cursor. Returns whether
    /// something was selected.
    pub fn add_next_occurrence(&mut self) -> (r: bool)
        requires
            old(self)@.wf(),
            old(self)@.selections_ok(),
        ensures
            r == old(self)@.has_next_occurrence(),
            final(self)@ == old(self)@.next_occurrence_added(),
            final(self)@.wf(),
    {
        let ghost st = self@;
        if self.carets.len() == 0 && self.selection().is_none() {
            let n: usize = rope_len_chars(&self.rope);
            if n == 0 {
                return false;
            }
            let i: usize = if self.cursor <= n - 1 {
                self.cursor
            } else {
                n - 1
            };
            if !is_word_char(rope_char(&self.rope, i)) {
                return false;
            }
            self.select_word_at(i);
            return true;
        }
        let needle = match self.primary_selection_text() {
            Some(t) => t,
            None => {
                return false;
            },
        };
        let all = self.carets_flagged();
        let ghost list = st.flagged();
        let mut taken: Vec<usize> = Vec::new();
        let mut from: usize = 0;
        let mut i: usize = 0;
        assert(list.take(0) =~= Seq::empty());
        while i < all.len()
            invariant
                i <= all.len(),
                list == flags_view(all@),
                taken.len() == i,
                forall|k: int| 0 <= k < i ==> #[trigger] taken[k] == list[k].caret.start(),
                from == reach(list.take(i as int)),
            decreases all.len() - i,
        {
            let (a, e) = all[i].0.bounds();
            proof {
                assert(list[i as int].caret == all[i as int].0@);
                assert(list.take(i + 1).drop_last() =~= list.take(i as int));
                assert(list.take(i + 1).last() == list[i as int]);
            }
            taken.push(a);
            if e > from {
                from = e;
            }
            i = i + 1;
        }
        proof {
            assert(list.take(i as int) =~= list);
            assert(ints(taken@) =~= starts(list));
            assert forall|k: int| 0 <= k < list.len() implies 0 <= (#[trigger] list[k]).caret.end()
                <= st.text.len() by {
                if k > 0 {
                    assert(list[k].caret == st.carets[k - 1]);
                    assert(crate::buffer::state::selects_within(
                        st.carets[k - 1],
                        st.text.len() as int,
                    ));
                }
            }
            lemma_reach(list, st.text.len() as int);
            lemma_next_free(st.text, needle@, from as int, starts(list), 0);
        }
        match self.find_from(needle.as_str(), from, &taken) {
            None => false,
            Some(start) => {
                let n: usize = rope_len_chars(&self.rope);
                let nlen: usize = needle.as_str().unicode_len();
                let end: usize = start + nlen;
                let goal: usize = self.col_of(end);
                self.promote_new_caret(Some(start), end, goal);
                true
            },
        }
    }
}

/// Whether `v` holds `x`.
fn holds(v: &Vec<usize>, x: usize) -> (r: bool)
    ensures
        r == v@.contains(x),
{
    let mut i: usize = 0;
    while i < v.len()
        invariant
            i <= v.len(),
            forall|k: int| 0 <= k < i ==> #[trigger] v[k] != x,
        decreases v.len() - i,
    {
        if v[i] == x {
            assert(v@[i as int] == x);
            return true;
        }
        i = i + 1;
    }
    false
}

} // verus!
