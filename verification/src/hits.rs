//! What lies under the mouse.

use crate::text::decimal;
use vstd::prelude::*;

verus! {

/// A rectangle of cells.
#[derive(Debug, Clone, Copy, PartialEq, Eq, Structural)]
pub struct Rect {
    pub x: u16,
    pub y: u16,
    pub w: u16,
    pub h: u16,
}

impl Rect {
    /// Whether a cell lies in the rectangle.
    pub open spec fn holds(self, col: u16, row: u16) -> bool {
        self.x <= col && col < self.x + self.w && self.y <= row && row < self.y + self.h
    }

    /// Whether a cell lies in the column right of the rectangle.
    pub open spec fn right_edge_holds(self, col: u16, row: u16) -> bool {
        col == self.x + self.w && self.y <= row && row < self.y + self.h
    }

    /// Whether a cell lies in the rectangle.
    pub fn contains(&self, col: u16, row: u16) -> (r: bool)
        ensures
            r == self.holds(col, row),
    {
        self.x <= col && (col as u32) < self.x as u32 + self.w as u32 && self.y <= row && (
        row as u32) < self.y as u32 + self.h as u32
    }

    /// Whether a cell lies in the column right of the rectangle.
    pub fn right_edge_contains(&self, col: u16, row: u16) -> (r: bool)
        ensures
            r == self.right_edge_holds(col, row),
    {
        col as u32 == self.x as u32 + self.w as u32 && self.y <= row && (row as u32) < self.y as u32
            + self.h as u32
    }

    /// The nearest cell of the rectangle, counted from its corner as
    /// `(row, col)`.
    pub open spec fn nearest(self, col: u16, row: u16) -> (int, int) {
        (pulled(row as int, self.y as int, self.h as int), pulled(
            col as int,
            self.x as int,
            self.w as int,
        ))
    }

    /// The nearest cell of the rectangle, counted from its corner as
    /// `(row, col)`.
    pub fn clamp_cell(&self, col: u16, row: u16) -> (r: (u16, u16))
        ensures
            (r.0 as int, r.1 as int) == self.nearest(col, row),
    {
        (pull(row, self.y, self.h), pull(col, self.x, self.w))
    }

    /// A cell counted from the rectangle's corner as `(row, col)`, where it lies
    /// in it.
    pub fn local(&self, col: u16, row: u16) -> (r: Option<(u16, u16)>)
        ensures
            match r {
                Some((a, b)) => self.holds(col, row) && a == row - self.y && b == col - self.x,
                None => !self.holds(col, row),
            },
    {
        if self.contains(col, row) {
            Some((row - self.y, col - self.x))
        } else {
            None
        }
    }
}

/// How far `v` is into the stretch of `len` cells from `from` on, kept inside.
pub open spec fn pulled(v: int, from: int, len: int) -> int {
    if v <= from || len == 0 {
        0
    } else if v - from >= len {
        len - 1
    } else {
        v - from
    }
}

fn pull(v: u16, from: u16, len: u16) -> (r: u16)
    ensures
        r == pulled(v as int, from as int, len as int),
{
    if v <= from || len == 0 {
        0
    } else if v - from >= len {
        len - 1
    } else {
        v - from
    }
}

/// A stretch of a row of tabs that selects a tab. `row` counts from the first
/// row of tabs.
#[derive(Debug, Clone, Copy, PartialEq, Eq, Structural)]
pub struct TabHit {
    pub row: u16,
    pub col_start: u16,
    pub col_end: u16,
    pub tab: usize,
}

impl TabHit {
    /// Whether a cell lies in the stretch.
    pub open spec fn holds(self, row: u16, col: u16) -> bool {
        self.row == row && self.col_start <= col < self.col_end
    }
}

/// The tab of the first stretch from `i` on that holds a cell.
pub open spec fn first_tab(hits: Seq<TabHit>, row: u16, col: u16, i: int) -> Option<usize>
    decreases hits.len() - i,
{
    if i >= hits.len() {
        None
    } else if hits[i].holds(row, col) {
        Some(hits[i].tab)
    } else {
        first_tab(hits, row, col, i + 1)
    }
}

/// The tab under a cell.
pub fn tab_hit_at(hits: &Vec<TabHit>, row: u16, col: u16) -> (r: Option<usize>)
    ensures
        r == first_tab(hits@, row, col, 0),
{
    let mut i: usize = 0;
    while i < hits.len()
        invariant
            i <= hits@.len(),
            first_tab(hits@, row, col, 0) == first_tab(hits@, row, col, i as int),
        decreases hits.len() - i,
    {
        let h = hits[i];
        if h.row == row && col >= h.col_start && col < h.col_end {
            return Some(h.tab);
        }
        i = i + 1;
    }
    None
}

/// The tab under a cell of the screen, in a row of tabs that fills `strip`.
pub fn strip_hit(strip: Option<Rect>, hits: &Vec<TabHit>, col: u16, row: u16) -> (r: Option<usize>)
    ensures
        r == match strip {
            Some(s) => if s.holds(col, row) {
                first_tab(hits@, (row - s.y) as u16, col, 0)
            } else {
                None
            },
            None => None,
        },
{
    match strip {
        Some(s) => if s.contains(col, row) {
            tab_hit_at(hits, row - s.y, col)
        } else {
            None
        },
        None => None,
    }
}

/// A pane with a file: which one, and the cells of its text.
#[derive(Debug, Clone, Copy, PartialEq, Eq, Structural)]
pub struct Pane {
    pub editor: usize,
    pub area: Rect,
}

/// The first pane from `i` on that holds a cell.
pub open spec fn first_pane(panes: Seq<Pane>, col: u16, row: u16, i: int) -> Option<Pane>
    decreases panes.len() - i,
{
    if i >= panes.len() {
        None
    } else if panes[i].area.holds(col, row) {
        Some(panes[i])
    } else {
        first_pane(panes, col, row, i + 1)
    }
}

/// The pane under a cell.
pub fn pane_at(panes: &Vec<Pane>, col: u16, row: u16) -> (r: Option<Pane>)
    ensures
        r == first_pane(panes@, col, row, 0),
        r matches Some(p) ==> p.area.holds(col, row),
{
    let mut i: usize = 0;
    while i < panes.len()
        invariant
            i <= panes@.len(),
            first_pane(panes@, col, row, 0) == first_pane(panes@, col, row, i as int),
        decreases panes.len() - i,
    {
        if panes[i].area.contains(col, row) {
            return Some(panes[i]);
        }
        i = i + 1;
    }
    None
}

/// The file of the first pane from `i` on whose scroll bar holds a cell.
pub open spec fn first_bar(panes: Seq<Pane>, col: u16, row: u16, i: int) -> Option<usize>
    decreases panes.len() - i,
{
    if i >= panes.len() {
        None
    } else if panes[i].area.right_edge_holds(col, row) {
        Some(panes[i].editor)
    } else {
        first_bar(panes, col, row, i + 1)
    }
}

/// The file whose scroll bar, the column right of its pane, holds a cell.
pub fn scrollbar_pane_at(panes: &Vec<Pane>, col: u16, row: u16) -> (r: Option<usize>)
    ensures
        r == first_bar(panes@, col, row, 0),
{
    let mut i: usize = 0;
    while i < panes.len()
        invariant
            i <= panes@.len(),
            first_bar(panes@, col, row, 0) == first_bar(panes@, col, row, i as int),
        decreases panes.len() - i,
    {
        if panes[i].area.right_edge_contains(col, row) {
            return Some(panes[i].editor);
        }
        i = i + 1;
    }
    None
}

/// The pane of a file from `i` on.
pub open spec fn pane_from(panes: Seq<Pane>, editor: usize, i: int) -> Option<Pane>
    decreases panes.len() - i,
{
    if i >= panes.len() {
        None
    } else if panes[i].editor == editor {
        Some(panes[i])
    } else {
        pane_from(panes, editor, i + 1)
    }
}

/// The pane of a file.
pub fn pane_of(panes: &Vec<Pane>, editor: usize) -> (r: Option<Pane>)
    ensures
        r == pane_from(panes@, editor, 0),
{
    let mut i: usize = 0;
    while i < panes.len()
        invariant
            i <= panes@.len(),
            pane_from(panes@, editor, 0) == pane_from(panes@, editor, i as int),
        decreases panes.len() - i,
    {
        if panes[i].editor == editor {
            return Some(panes[i]);
        }
        i = i + 1;
    }
    None
}

/// The first rectangle from `i` on that holds a cell.
pub open spec fn first_rect(rects: Seq<Rect>, col: u16, row: u16, i: int) -> Option<int>
    decreases rects.len() - i,
{
    if i >= rects.len() {
        None
    } else if rects[i].holds(col, row) {
        Some(i)
    } else {
        first_rect(rects, col, row, i + 1)
    }
}

/// The place of the rectangle under a cell.
pub fn terminal_grid_hit(rects: &Vec<Rect>, col: u16, row: u16) -> (r: Option<usize>)
    ensures
        crate::buffer::opt_int(r) == first_rect(rects@, col, row, 0),
        r matches Some(i) ==> i < rects@.len(),
{
    let mut i: usize = 0;
    while i < rects.len()
        invariant
            i <= rects@.len(),
            first_rect(rects@, col, row, 0) == first_rect(rects@, col, row, i as int),
        decreases rects.len() - i,
    {
        if rects[i].contains(col, row) {
            return Some(i);
        }
        i = i + 1;
    }
    None
}

/// How many digits a number has.
pub open spec fn digit_count(n: nat) -> nat {
    decimal(n).len()
}

/// The width of the line numbers of a text with `lines` lines: room for three
/// digits at least, and a space.
pub open spec fn gutter(lines: nat) -> int {
    let d = digit_count(
        if lines == 0 {
            1
        } else {
            lines
        },
    );
    (if d < 3 {
        3
    } else {
        d as int
    }) + 1
}

proof fn lemma_digits(n: nat, d: nat)
    requires
        n < pow10(d),
        d >= 1,
    ensures
        1 <= digit_count(n) <= d,
    decreases d,
{
    reveal_with_fuel(decimal, 2);
    reveal_with_fuel(pow10, 2);
    if n >= 10 {
        lemma_digits(n / 10, (d - 1) as nat);
    }
}

spec fn pow10(d: nat) -> nat
    decreases d,
{
    if d == 0 {
        1
    } else {
        10 * pow10((d - 1) as nat)
    }
}

/// The width of the line numbers of a text with `lines` lines.
pub fn gutter_width(lines: usize) -> (r: u16)
    ensures
        r == gutter(lines as nat),
{
    let shown: usize = if lines == 0 {
        1
    } else {
        lines
    };
    let mut rest: usize = shown;
    let mut digits: u16 = 1;
    proof {
        assert(pow10(20) > usize::MAX) by {
            reveal_with_fuel(pow10, 21);
        }
        lemma_digits(shown as nat, 20);
    }
    while rest >= 10
        invariant
            digits + digit_count(rest as nat) == digit_count(shown as nat) + 1,
            1 <= digits <= 20,
            digit_count(shown as nat) <= 20,
        decreases rest,
    {
        proof {
            reveal_with_fuel(decimal, 2);
            assert(digit_count(rest as nat) == digit_count((rest / 10) as nat) + 1);
            assert(digit_count((rest / 10) as nat) >= 1);
        }
        rest = rest / 10;
        digits = digits + 1;
    }
    assert(digit_count(rest as nat) == 1);
    (if digits < 3 {
        3
    } else {
        digits
    }) + 1
}

/// The row of a list under a cell: the list fills `area` and shows its rows from
/// `start` on.
pub open spec fn row_under(area: Option<Rect>, start: int, col: u16, row: u16) -> Option<int> {
    match area {
        Some(a) => if a.holds(col, row) && start + (row - a.y) <= usize::MAX {
            Some(start + (row - a.y))
        } else {
            None
        },
        None => None,
    }
}

/// The row of a list under a cell.
pub fn dialog_row_at(area: Option<Rect>, start: usize, col: u16, row: u16) -> (r: Option<usize>)
    ensures
        crate::buffer::opt_int(r) == row_under(area, start as int, col, row),
{
    match area {
        Some(a) => if a.contains(col, row) && start <= usize::MAX - (row - a.y) as usize {
            Some(start + (row - a.y) as usize)
        } else {
            None
        },
        None => None,
    }
}

/// Presses of the button in quick succession on one cell.
#[derive(Debug, Clone, Copy, PartialEq, Eq)]
pub struct Clicks {
    /// When and where the last press was.
    pub last: Option<(u64, u16, u16)>,
    pub count: u8,
}

/// How soon a press has to follow another to count with it, in milliseconds.
pub const DOUBLE_CLICK: u64 = 500;

impl Clicks {
    /// How many presses there are with one more: one, two, three, and one again.
    pub open spec fn with_press(self, now: u64, col: u16, row: u16) -> int {
        if self.last matches Some((t, c, r)) && c == col && r == row && (now < t || now - t
            <= DOUBLE_CLICK) {
            (self.count as int % 3) + 1
        } else {
            1
        }
    }

    /// Count a press.
    pub fn bump_click(&mut self, now: u64, col: u16, row: u16) -> (r: u8)
        ensures
            r == old(self).with_press(now, col, row),
            *final(self) == (Clicks { last: Some((now, col, row)), count: r }),
            1 <= r <= 3,
    {
        let streak: u8 = match self.last {
            Some((t, c, r)) => if c == col && r == row && (now < t || now - t <= DOUBLE_CLICK) {
                (self.count % 3) + 1
            } else {
                1
            },
            None => 1,
        };
        self.last = Some((now, col, row));
        self.count = streak;
        streak
    }

    /// Whether the mouse is still on the cell of a double or triple press.
    pub fn click_stayed_on_press_cell(&self, col: u16, row: u16) -> (r: bool)
        ensures
            r == (self.count >= 2 && (self.last matches Some((_, c, rr)) && c == col && rr == row)),
    {
        match self.last {
            Some((_, c, r)) => self.count >= 2 && c == col && r == row,
            None => false,
        }
    }
}

} // verus!
