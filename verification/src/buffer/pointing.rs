//! What the mouse does to a buffer: clicks, drags and scrolling.

use crate::buffer::carets::{carets_view, lemma_without};
use crate::buffer::state::{least, selects_within, without, BufferState};
use crate::buffer::{Buffer, Caret};
use crate::lines::{
    lemma_line_of_monotone, lemma_line_starts_increase, line_len, line_of, line_start, line_total,
};
use crate::rope::{fits_rope, rope_len_chars, rope_line_to_char};
use vstd::prelude::*;

verus! {

/// `v` held between `lo` and `hi`.
pub open spec fn held(v: int, lo: int, hi: int) -> int {
    if v < lo {
        lo
    } else if v > hi {
        hi
    } else {
        v
    }
}

impl BufferState {
    /// Whether `n` characters can be typed at every caret.
    pub open spec fn takes(self, n: int) -> bool {
        self.selections_ok() && fits_rope((self.text.len() + (self.carets.len() + 1) * n) as nat)
    }

    /// The line that the row `view_row` of the view shows; past the end, the
    /// last one.
    pub open spec fn shown_line(self, view_row: int) -> int {
        least(self.scroll_row + view_row, line_total(self.text) - 1)
    }

    /// The column of line `l` that is nearest to `col`.
    pub open spec fn nearest_col(self, l: int, col: int) -> int {
        least(col, line_len(self.text, l))
    }

    /// The position under the row `view_row` and the column `col` of the view.
    pub open spec fn under(self, view_row: int, col: int) -> int {
        let l = self.shown_line(view_row);
        line_start(self.text, l) + self.nearest_col(l, col)
    }

    /// The primary caret at `pos`. Another caret that stood there goes.
    pub open spec fn primary_put(self, pos: int, goal: int) -> BufferState {
        BufferState {
            cursor: pos,
            goal_col: goal,
            carets: without(self.carets, pos),
            ..self
        }
    }

    /// The buffer after the mouse pointed at a cell of its view: with `alt` a
    /// new caret there, else the caret moved there, with the selection and the
    /// other carets dropped unless `keep` is set.
    pub open spec fn pointed(self, view_row: int, col: int, keep: bool, alt: bool) -> BufferState {
        let pos = self.under(view_row, col);
        let c = self.nearest_col(self.shown_line(view_row), col);
        if alt {
            self.promoted(None, pos, c)
        } else if keep {
            self.primary_put(pos, c)
        } else {
            BufferState {
                carets: Seq::empty(),
                ..self.deselected()
            }.primary_put(pos, c)
        }
    }

    /// The buffer after so many quick clicks at the caret: two take the word,
    /// three the line.
    pub open spec fn click_selected(self, clicks: u8) -> BufferState {
        if clicks == 2 {
            if self.text.len() == 0 {
                BufferState { carets: Seq::empty(), anchor: Some(0), cursor: 0, ..self }
            } else {
                self.word_selected(least(self.cursor, self.text.len() - 1))
            }
        } else if clicks >= 3 {
            let l = line_of(self.text, least(self.cursor, self.text.len() as int));
            self.selected(line_start(self.text, l), line_start(self.text, l + 1))
        } else {
            self
        }
    }

    /// A selection starts at the caret, or takes what the clicks ask for.
    pub open spec fn pressed(self, clicks: u8) -> BufferState {
        BufferState { anchor: Some(self.cursor), ..self }.click_selected(clicks)
    }

    /// An empty selection is none.
    pub open spec fn released(self) -> BufferState {
        if self.anchor == Some(self.cursor) {
            BufferState { anchor: None, ..self }
        } else {
            self
        }
    }

    /// The view of `h` rows after a frame. Where the caret moved, the view
    /// follows it.
    pub open spec fn followed(self, h: int, caret_moved: bool) -> BufferState {
        let s = least(self.scroll_row, line_total(self.text) - 1);
        let row = line_of(self.text, self.cursor);
        BufferState {
            scroll_row: if caret_moved && row < s {
                row
            } else if caret_moved && row >= s + h {
                row + 1 - h
            } else {
                s
            },
            ..self
        }
    }

    /// The view moved by `delta` rows, the caret staying where it is.
    pub open spec fn scrolled(self, delta: int) -> BufferState {
        BufferState {
            scroll_row: held(self.scroll_row + delta, 0, line_total(self.text) - 1),
            ..self
        }
    }

    /// The view moved by `page` rows towards a click beside the scrollbar's
    /// thumb.
    pub open spec fn paged(self, up: bool, page: int) -> BufferState {
        BufferState {
            scroll_row: if up {
                if self.scroll_row > page {
                    self.scroll_row - page
                } else {
                    0
                }
            } else {
                least(self.scroll_row + page, line_total(self.text) - 1)
            },
            ..self
        }
    }

    /// The columns from `col` to `end_col` of a line selected, as far as the
    /// text reaches.
    pub open spec fn span_selected(self, line: int, col: int, end_col: int) -> BufferState {
        let l = least(line, line_total(self.text) - 1);
        let a = least(col, line_len(self.text, l));
        let e = least(end_col, line_len(self.text, l));
        let b = if e < a {
            a
        } else {
            e
        };
        self.selected(line_start(self.text, l) + a, line_start(self.text, l) + b)
    }
}

impl Buffer {
    /// Whether every selection lies in the text.
    pub fn has_sound_selections(&self) -> (r: bool)
        ensures
            r == self@.selections_ok(),
    {
        let n: usize = rope_len_chars(&self.rope);
        if let Some(a) = self.anchor {
            if a != self.cursor && a > n {
                assert(!selects_within(self@.primary(), n as int));
                return false;
            }
        }
        let mut i: usize = 0;
        while i < self.carets.len()
            invariant
                i <= self.carets@.len(),
                n == self@.text.len(),
                self@.selection_ok(),
                forall|k: int|
                    0 <= k < i ==> selects_within(#[trigger] self@.carets[k], n as int),
            decreases self.carets.len() - i,
        {
            assert(self@.carets[i as int] == self.carets@[i as int]@);
            if let Some(a) = self.carets[i].anchor {
                if a != self.carets[i].cursor && a > n {
                    assert(!selects_within(self@.carets[i as int], n as int));
                    return false;
                }
            }
            i = i + 1;
        }
        true
    }

    /// Whether `n` characters can be typed at every caret: the selections lie
    /// in the text, and the rope can hold them.
    pub fn has_room(&self, n: usize) -> (r: bool)
        ensures
            r == self@.takes(n as int),
    {
        if !self.has_sound_selections() {
            return false;
        }
        let most: usize = usize::MAX / 4;
        let len: usize = rope_len_chars(&self.rope);
        if len > most {
            assert(!fits_rope((len + (self@.carets.len() + 1) * n) as nat)) by (nonlinear_arith)
                requires
                    len > usize::MAX / 4,
            ;
            return false;
        }
        if n == 0 {
            assert((self@.carets.len() + 1) * n == 0) by (nonlinear_arith)
                requires
                    n == 0,
            ;
            return true;
        }
        let each: usize = (most - len) / n;
        let carets: usize = self.carets.len();
        proof {
            let c = carets + 1;
            assert(c <= each <==> c * n <= most - len) by (nonlinear_arith)
                requires
                    n > 0,
                    each == (most - len) as int / n as int,
                    most >= len,
            ;
            assert(fits_rope((len + c * n) as nat) == (len + c * n <= most)) by (nonlinear_arith)
                requires
                    most == usize::MAX / 4,
                    c >= 0,
                    n >= 0,
                    len >= 0,
            ;
        }
        carets < each
    }

    /// Put the primary caret at `pos`, leaving its selection's anchor. Another
    /// caret that stood there goes.
    fn put_primary(&mut self, pos: usize, goal: usize)
        requires
            old(self)@.wf(),
            pos <= old(self)@.text.len(),
        ensures
            final(self)@ == old(self)@.primary_put(pos as int, goal as int),
            final(self)@.wf(),
    {
        let ghost st = self@;
        let ghost all = carets_view(self.carets@);
        let mut kept: Vec<Caret> = Vec::new();
        let mut i: usize = 0;
        proof {
            reveal(Seq::filter);
            assert(all.take(0) =~= Seq::empty());
            assert(carets_view(kept@) =~= Seq::empty());
        }
        while i < self.carets.len()
            invariant
                i <= self.carets.len(),
                all == carets_view(self.carets@),
                carets_view(kept@) == without(all.take(i as int), pos as int),
            decreases self.carets.len() - i,
        {
            let c = self.carets[i];
            let ghost before = carets_view(kept@);
            proof {
                reveal(Seq::filter);
                assert(all.take(i + 1).drop_last() =~= all.take(i as int));
                assert(all.take(i + 1).last() == c@);
            }
            if c.cursor != pos {
                kept.push(c);
                assert(carets_view(kept@) =~= before.push(c@));
            }
            i = i + 1;
        }
        assert(all.take(i as int) =~= all);
        self.carets = kept;
        self.cursor = pos;
        self.goal_col = goal;
        proof {
            lemma_without(st.carets, pos as int, st.text.len() as int);
        }
    }

    /// The number of the last line.
    fn last_line(&self) -> (r: usize)
        ensures
            r == line_total(self@.text) - 1,
    {
        proof {
            lemma_line_of_monotone(self@.text, 0, self@.text.len() as int);
        }
        self.line_count() - 1
    }

    /// The line that a row of the view shows.
    fn line_under(&self, view_row: usize) -> (r: usize)
        ensures
            r == self@.shown_line(view_row as int),
            r < line_total(self@.text),
    {
        let last: usize = self.last_line();
        if self.scroll_row >= last || view_row > last - self.scroll_row {
            last
        } else {
            self.scroll_row + view_row
        }
    }

    /// Point at a cell of the view: with `alt` a new caret there, else the
    /// caret moved there, with the selection and the other carets dropped
    /// unless `keep` is set.
    pub fn point_at(&mut self, view_row: usize, col: usize, keep: bool, alt: bool)
        requires
            old(self)@.wf(),
        ensures
            final(self)@ == old(self)@.pointed(view_row as int, col as int, keep, alt),
            final(self)@.wf(),
    {
        let target: usize = self.line_under(view_row);
        let len: usize = self.line_len_chars(target);
        let c: usize = if col <= len {
            col
        } else {
            len
        };
        proof {
            lemma_line_starts_increase(self@.text, target as int);
        }
        let n: usize = rope_len_chars(&self.rope);
        let pos: usize = rope_line_to_char(&self.rope, target) + c;
        if alt {
            self.add_caret_at(pos, c);
            return;
        }
        if !keep {
            self.clear_selection();
            self.clear_extra_carets();
        }
        self.put_primary(pos, c);
    }

    /// Take the word or the line that quick clicks at the caret ask for.
    pub fn apply_click_select(&mut self, clicks: u8)
        requires
            old(self)@.wf(),
        ensures
            final(self)@ == old(self)@.click_selected(clicks),
            final(self)@.wf(),
    {
        let at: usize = self.cursor;
        if clicks == 2 {
            self.select_word_at(at);
        } else if clicks >= 3 {
            self.select_line_at(at);
        }
    }

    /// Start a selection at the caret, or take what the clicks ask for.
    pub fn press(&mut self, clicks: u8)
        requires
            old(self)@.wf(),
        ensures
            final(self)@ == old(self)@.pressed(clicks),
            final(self)@.wf(),
    {
        self.anchor = Some(self.cursor);
        self.apply_click_select(clicks);
    }

    /// Drop a selection that is empty.
    pub fn release(&mut self)
        requires
            old(self)@.wf(),
        ensures
            final(self)@ == old(self)@.released(),
            final(self)@.wf(),
    {
        if let Some(a) = self.anchor {
            if a == self.cursor {
                self.anchor = None;
            }
        }
    }

    /// Keep the view of `h` rows in the text, and on the caret where it moved.
    pub fn follow(&mut self, h: u16, caret_moved: bool)
        requires
            old(self)@.wf(),
            h > 0,
        ensures
            final(self)@ == old(self)@.followed(h as int, caret_moved),
            final(self)@.wf(),
    {
        let row: usize = self.cursor_row();
        let last: usize = self.last_line();
        let mut next: usize = if self.scroll_row <= last {
            self.scroll_row
        } else {
            last
        };
        let rows: usize = h as usize;
        if caret_moved {
            if row < next {
                next = row;
            } else if row - next >= rows {
                next = row - (rows - 1);
            }
        }
        self.scroll_row = next;
    }

    /// Move the view by `delta` rows.
    pub fn scroll_by(&mut self, delta: i32)
        requires
            old(self)@.wf(),
        ensures
            final(self)@ == old(self)@.scrolled(delta as int),
            final(self)@.wf(),
    {
        let last: usize = self.last_line();
        if delta >= 0 {
            let d: usize = delta as usize;
            if self.scroll_row >= last || d > last - self.scroll_row {
                self.scroll_row = last;
            } else {
                self.scroll_row = self.scroll_row + d;
            }
        } else {
            let d: usize = (0 - delta as i64) as usize;
            let up: usize = if self.scroll_row > d {
                self.scroll_row - d
            } else {
                0
            };
            self.scroll_row = if up <= last {
                up
            } else {
                last
            };
        }
    }

    /// Move the view by `page` rows towards a click beside the scrollbar's
    /// thumb.
    pub fn scroll_page(&mut self, up: bool, page: usize)
        requires
            old(self)@.wf(),
        ensures
            final(self)@ == old(self)@.paged(up, page as int),
            final(self)@.wf(),
    {
        if up {
            self.scroll_row = if self.scroll_row > page {
                self.scroll_row - page
            } else {
                0
            };
        } else {
            self.scroll_row = self.line_under(page);
        }
    }

    /// Select the columns from `col` to `end_col` of a line, as far as the
    /// text reaches.
    pub fn select_span(&mut self, line: usize, col: usize, end_col: usize)
        requires
            old(self)@.wf(),
        ensures
            final(self)@ == old(self)@.span_selected(line as int, col as int, end_col as int),
            final(self)@.wf(),
    {
        let last: usize = self.last_line();
        let target: usize = if line <= last {
            line
        } else {
            last
        };
        let len: usize = self.line_len_chars(target);
        let a: usize = if col <= len {
            col
        } else {
            len
        };
        let e: usize = if end_col <= len {
            end_col
        } else {
            len
        };
        let b: usize = if e < a {
            a
        } else {
            e
        };
        proof {
            lemma_line_starts_increase(self@.text, target as int);
        }
        let n: usize = rope_len_chars(&self.rope);
        let start: usize = rope_line_to_char(&self.rope, target);
        self.select_range(start + a, start + b);
    }
}

} // verus!
