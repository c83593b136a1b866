//! What lies under the mouse, and how clicks count.

use crate::hits::{
    first_bar, first_pane, first_rect, first_tab, gutter, row_under, Clicks, Pane, Rect, TabHit,
};
use vstd::prelude::*;

verus! {

/// A rectangle holds the cells from its corner on, as many across and down as it is
/// wide and high. The nearest cell of a rectangle is the cell itself where it is
/// inside, and else one on the edge towards it.
pub proof fn law_a_rectangle_holds_its_cells(r: Rect, col: u16, row: u16)
    ensures
        r.holds(col, row) == (r.x <= col < r.x + r.w && r.y <= row < r.y + r.h),
        r.w > 0 && r.h > 0 ==> ({
            let (y, x) = r.nearest(col, row);
            &&& 0 <= y < r.h
            &&& 0 <= x < r.w
            &&& r.y <= row < r.y + r.h ==> y == row - r.y
            &&& r.x <= col < r.x + r.w ==> x == col - r.x
            &&& row < r.y ==> y == 0
            &&& row >= r.y + r.h ==> y == r.h - 1
            &&& col < r.x ==> x == 0
            &&& col >= r.x + r.w ==> x == r.w - 1
        }),
        r.right_edge_holds(col, row) == (col == r.x + r.w && r.y <= row < r.y + r.h),
{
}

/// A press at the cell of the last one, no more than half a second later, counts on:
/// one, two, three, and one again. Any other press is a first one.
pub proof fn law_quick_clicks_count(c: Clicks, now: u64, col: u16, row: u16)
    requires
        1 <= c.count <= 3,
    ensures
        c.last is None ==> c.with_press(now, col, row) == 1,
        c.last matches Some((t, x, y)) ==> {
            &&& x != col || y != row ==> c.with_press(now, col, row) == 1
            &&& now > t + 500 ==> c.with_press(now, col, row) == 1
            &&& x == col && y == row && t <= now <= t + 500 ==> {
                &&& c.count == 1 ==> c.with_press(now, col, row) == 2
                &&& c.count == 2 ==> c.with_press(now, col, row) == 3
                &&& c.count == 3 ==> c.with_press(now, col, row) == 1
            }
        },
{
}

proof fn lemma_tab(hits: Seq<TabHit>, row: u16, col: u16, i: int)
    requires
        0 <= i <= hits.len(),
    ensures
        match first_tab(hits, row, col, i) {
            Some(t) => exists|k: int|
                i <= k < hits.len() && (#[trigger] hits[k]).tab == t && hits[k].row == row
                    && hits[k].col_start <= col < hits[k].col_end,
            None => forall|k: int|
                i <= k < hits.len() ==> !((#[trigger] hits[k]).row == row && hits[k].col_start <= col
                    < hits[k].col_end),
        },
    decreases hits.len() - i,
{
    if i < hits.len() && !hits[i].holds(row, col) {
        lemma_tab(hits, row, col, i + 1);
    }
}

/// A click on the row of tabs is for the tab whose stretch holds it, and for none
/// beside them.
pub proof fn law_a_click_finds_its_tab(hits: Seq<TabHit>, row: u16, col: u16)
    ensures
        match first_tab(hits, row, col, 0) {
            Some(t) => exists|k: int|
                0 <= k < hits.len() && (#[trigger] hits[k]).tab == t && hits[k].row == row
                    && hits[k].col_start <= col < hits[k].col_end,
            None => forall|k: int|
                0 <= k < hits.len() ==> !((#[trigger] hits[k]).row == row && hits[k].col_start <= col
                    < hits[k].col_end),
        },
{
    lemma_tab(hits, row, col, 0);
}

proof fn lemma_pane(panes: Seq<Pane>, col: u16, row: u16, i: int)
    requires
        0 <= i <= panes.len(),
    ensures
        match first_pane(panes, col, row, i) {
            Some(p) => panes.contains(p) && p.area.x <= col < p.area.x + p.area.w && p.area.y <= row
                < p.area.y + p.area.h,
            None => forall|k: int|
                i <= k < panes.len() ==> !(#[trigger] panes[k]).area.holds(col, row),
        },
        match first_bar(panes, col, row, i) {
            Some(e) => exists|k: int|
                i <= k < panes.len() && (#[trigger] panes[k]).editor == e && col == panes[k].area.x
                    + panes[k].area.w && panes[k].area.y <= row < panes[k].area.y + panes[k].area.h,
            None => forall|k: int|
                i <= k < panes.len() ==> !(#[trigger] panes[k]).area.right_edge_holds(col, row),
        },
    decreases panes.len() - i,
{
    if i < panes.len() {
        lemma_pane(panes, col, row, i + 1);
        assert(panes.contains(panes[i]));
    }
}

/// A cell is for the pane that holds it, and the column right of a pane for its
/// scroll bar.
pub proof fn law_a_cell_finds_its_pane(panes: Seq<Pane>, col: u16, row: u16)
    ensures
        match first_pane(panes, col, row, 0) {
            Some(p) => panes.contains(p) && p.area.x <= col < p.area.x + p.area.w && p.area.y <= row
                < p.area.y + p.area.h,
            None => forall|k: int|
                0 <= k < panes.len() ==> !(#[trigger] panes[k]).area.holds(col, row),
        },
        match first_bar(panes, col, row, 0) {
            Some(e) => exists|k: int|
                0 <= k < panes.len() && (#[trigger] panes[k]).editor == e && col == panes[k].area.x
                    + panes[k].area.w && panes[k].area.y <= row < panes[k].area.y + panes[k].area.h,
            None => forall|k: int|
                0 <= k < panes.len() ==> !(#[trigger] panes[k]).area.right_edge_holds(col, row),
        },
{
    lemma_pane(panes, col, row, 0);
}

proof fn lemma_rect(rects: Seq<Rect>, col: u16, row: u16, i: int)
    requires
        0 <= i <= rects.len(),
        forall|k: int| 0 <= k < i ==> !(#[trigger] rects[k]).holds(col, row),
    ensures
        match first_rect(rects, col, row, i) {
            Some(n) => 0 <= n < rects.len() && rects[n].x <= col < rects[n].x + rects[n].w
                && rects[n].y <= row < rects[n].y + rects[n].h && forall|k: int|
                0 <= k < n ==> !(#[trigger] rects[k]).holds(col, row),
            None => forall|k: int|
                0 <= k < rects.len() ==> !(#[trigger] rects[k]).holds(col, row),
        },
    decreases rects.len() - i,
{
    if i < rects.len() && !rects[i].holds(col, row) {
        lemma_rect(rects, col, row, i + 1);
    }
}

/// Of rectangles that lie over each other the first that holds a cell has it.
pub proof fn law_the_first_rectangle_has_the_cell(rects: Seq<Rect>, col: u16, row: u16)
    ensures
        match first_rect(rects, col, row, 0) {
            Some(n) => 0 <= n < rects.len() && rects[n].x <= col < rects[n].x + rects[n].w
                && rects[n].y <= row < rects[n].y + rects[n].h && forall|k: int|
                0 <= k < n ==> !(#[trigger] rects[k]).holds(col, row),
            None => forall|k: int|
                0 <= k < rects.len() ==> !(#[trigger] rects[k]).holds(col, row),
        },
{
    lemma_rect(rects, col, row, 0);
}

/// The row of a list under a cell counts from the first row that shows.
pub proof fn law_a_list_is_clicked_by_its_rows(area: Rect, start: int, col: u16, row: u16)
    requires
        0 <= start < usize::MAX - u16::MAX,
    ensures
        area.x <= col < area.x + area.w && area.y <= row < area.y + area.h ==> row_under(
            Some(area),
            start,
            col,
            row,
        ) == Some(start + (row - area.y)),
        !(area.x <= col < area.x + area.w && area.y <= row < area.y + area.h) ==> row_under(
            Some(area),
            start,
            col,
            row,
        ) is None,
        row_under(None, start, col, row) is None,
{
}

/// The line numbers have room for three digits and a space at least.
pub proof fn law_line_numbers_have_room(lines: nat)
    ensures
        gutter(lines) >= 4,
{
}

} // verus!
