//! Where the mouse leads.

use crate::app::browsing::BrowseStep;
use crate::app::mouse::{drops, presses_list, releases, PointerStep};
use crate::app::pointer::{drags_editor, presses_bar, presses_editor};
use crate::app::App;
use crate::buffer::pointlaws::{column_on, law_a_click_lands_on_the_line_shown};
use crate::dialog::top_of;
use crate::hits::{first_bar, first_tab, gutter};
use crate::lines::{line_len, line_of, line_start, line_total};
use crate::paths::{base_name, joined_path, same_path};
use crate::text::decimal;
use vstd::prelude::*;

verus! {

/// The line numbers take four columns for up to 999 lines, five for up to 9999, and
/// six for up to 99999.
pub proof fn law_line_numbers_widen_with_the_text(lines: nat)
    ensures
        lines < 1000 ==> gutter(lines) == 4,
        1000 <= lines < 10000 ==> gutter(lines) == 5,
        10000 <= lines < 100000 ==> gutter(lines) == 6,
{
    reveal_with_fuel(decimal, 6);
}

/// Whether a cell is over the text of the one file that shows: no prompt and no
/// dialog is open, and it is below the tabs and the path, and not on a scroll bar.
pub open spec fn over_text(a: App, col: u16, row: u16) -> bool {
    &&& !a.prompt.active
    &&& a.dialogs@.len() == 0
    &&& a.tabs@.active is Some
    &&& !a.tabs@.grid
    &&& first_bar(a.layout.panes@, col, row, 0) is None
    &&& row >= first_text_row(a)
}

/// The first row of the screen that shows text: below the tabs, and below the path
/// of a file of the open folder.
pub open spec fn first_text_row(a: App) -> int {
    (match a.layout.tab_strip {
        Some(r) => r.h as int,
        None => 1,
    }) + if a.root is Some && a.tabs@.editors[a.tabs@.active->0].path is Some {
        1int
    } else {
        0int
    }
}

/// A press over the text puts the caret on the line that shows there, at the column
/// under the mouse behind the line numbers, or at the end of a shorter line. The
/// find bar closes, and the view stays.
pub proof fn law_a_press_puts_the_caret_under_the_mouse(
    a: App,
    col: u16,
    row: u16,
    r: BrowseStep,
    b: App,
)
    requires
        a.wf(),
        over_text(a, col, row),
        a.pointer.clicks.count < 2,
        presses_editor(a, col, row, false, r, b),
    ensures
        ({
            let s = a.shown()->0;
            let t = b.shown()->0;
            let line = s.scroll_row + (row - first_text_row(a));
            let c = if col > gutter(line_total(s.text) as nat) {
                col - gutter(line_total(s.text) as nat)
            } else {
                0
            };
            &&& b.shown() is Some
            &&& t.text == s.text
            &&& t.scroll_row == s.scroll_row
            &&& t.carets.len() == 0
            &&& t.anchor == Some(t.cursor)
            &&& line < line_total(s.text) && column_on(s.text, line, c) ==> line_of(t.text, t.cursor)
                == line && (t.cursor - line_start(s.text, line) == c || (t.cursor - line_start(
                s.text,
                line,
            ) == line_len(s.text, line) && line_len(s.text, line) < c))
            &&& line >= line_total(s.text) ==> line_of(t.text, t.cursor) == line_total(s.text) - 1
            &&& !b.find@.active || b.find == a.find
        }),
{
    let s = a.shown()->0;
    assert(s.wf());
    let y = row - first_text_row(a);
    let c = if col > gutter(line_total(s.text) as nat) {
        col - gutter(line_total(s.text) as nat)
    } else {
        0
    };
    assert(a.tabs.editors@[a.tabs@.active->0]@ == s);
    law_a_click_lands_on_the_line_shown(s, y, c, false, false);
    assert(s.text_col(col as int) == c);
    assert(a.body_row(row) == y);
}

/// Moving with the button held over the text moves the caret under the mouse and
/// keeps the other end of the selection, so that all between is selected.
pub proof fn law_dragging_selects_to_the_mouse(a: App, col: u16, row: u16, b: App)
    requires
        a.wf(),
        over_text(a, col, row),
        row > 0,
        a.pointer.clicks.count < 2,
        a.pointer.scrollbar_drag is None,
        drags_editor(a, col, row, None, b),
    ensures
        ({
            let s = a.shown()->0;
            let t = b.shown()->0;
            let line = s.scroll_row + (row - first_text_row(a));
            let c = if col > gutter(line_total(s.text) as nat) {
                col - gutter(line_total(s.text) as nat)
            } else {
                0
            };
            &&& b.shown() is Some
            &&& t.text == s.text
            &&& t.anchor == s.anchor
            &&& line < line_total(s.text) && column_on(s.text, line, c) ==> line_of(t.text, t.cursor)
                == line && t.cursor - line_start(s.text, line) <= c
        }),
{
    let s = a.shown()->0;
    assert(s.wf());
    let y = row - first_text_row(a);
    let c = if col > gutter(line_total(s.text) as nat) {
        col - gutter(line_total(s.text) as nat)
    } else {
        0
    };
    assert(a.tabs.editors@[a.tabs@.active->0]@ == s);
    law_a_click_lands_on_the_line_shown(s, y, c, true, false);
    assert(s.text_col(col as int) == c);
    assert(a.body_row(row) == y);
}

/// A press on the scroll bar takes hold of the thumb under the mouse; above the
/// thumb the view goes up by a page, and below it down. The caret stays.
pub proof fn law_the_scroll_bar_pages_towards_the_mouse(a: App, editor: usize, row: u16, b: App)
    requires
        a.wf(),
        editor < a.tabs@.editors.len(),
        crate::app::pointer::first_thumb(a.layout.thumbs@, editor, 0) is Some,
        crate::hits::pane_from(a.layout.panes@, editor, 0) is Some,
        presses_bar(a, editor, row, b),
    ensures
        ({
            let t = crate::app::pointer::first_thumb(a.layout.thumbs@, editor, 0)->0;
            let old = a.tabs@.editors[editor as int];
            let new = b.tabs@.editors[editor as int];
            &&& t.top <= row < t.top + t.height ==> b.tabs == a.tabs && b.pointer.scrollbar_drag
                == Some((editor, (row - t.top) as u16))
            &&& row < t.top ==> new.scroll_row <= old.scroll_row && new.cursor == old.cursor && (
            old.scroll_row > 0 ==> new.scroll_row < old.scroll_row)
            &&& row >= t.top + t.height && old.scroll_row < line_total(old.text) ==> new.scroll_row
                >= old.scroll_row && new.cursor == old.cursor && (old.scroll_row + 1 < line_total(
                old.text,
            ) ==> new.scroll_row > old.scroll_row)
        }),
{
    assert(a.tabs.editors@[editor as int]@ == a.tabs@.editors[editor as int]);
}

/// A press on the tabs shows the tab under the mouse.
pub proof fn law_a_press_on_a_tab_shows_it(a: App, col: u16, row: u16, r: BrowseStep, b: App, i: usize)
    requires
        a.wf(),
        !a.prompt.active,
        a.dialogs@.len() == 0,
        a.tabs@.active is Some,
        !a.tabs@.grid,
        first_bar(a.layout.panes@, col, row, 0) is None,
        row < (match a.layout.tab_strip {
            Some(s) => s.h as int,
            None => 1,
        }),
        first_tab(a.layout.tab_hits@, row, col, 0) == Some(i),
        i < a.tabs@.editors.len(),
        presses_editor(a, col, row, false, r, b),
    ensures
        b.tabs@.active == Some(i as int),
        b.tabs@.editors == a.tabs@.editors,
        b.pointer.tab_drag == Some(i),
{
}

/// A press in the list of files selects the row under the mouse: in the tree while
/// nothing is typed, among the matches else. A tick at the left edge is set or
/// taken where there are ticks.
pub proof fn law_a_press_selects_the_row_under_the_mouse(
    a: App,
    col: u16,
    row: u16,
    r: BrowseStep,
    b: App,
)
    requires
        a.wf(),
        a.layout.list is Some,
        presses_list(a, col, row, r, b),
    ensures
        ({
            let l = a.layout.list->0;
            let i = a.layout.list_start + (row - l.y);
            let inside = l.x <= col < l.x + l.w && l.y <= row < l.y + l.h;
            &&& inside && a.file_dialog.query@.len() == 0 && i < a.tree@.entries.len()
                && !a.tree@.entries[i].is_dir ==> b.tree@.selected == i && r is Nothing
                && b.pointer.tree_drag == Some(i as usize)
            &&& inside && a.file_dialog.query@.len() > 0 && i < a.file_dialog.matches@.len()
                ==> b.file_dialog.selected == i && r is Nothing
            &&& !inside ==> b.tree == a.tree && b.file_dialog == a.file_dialog && r is Nothing
            &&& b.tabs == a.tabs
        }),
{
    assert(a.tree.entries.len() == a.tree@.entries.len());
    assert(a.file_dialog.matches.len() == a.file_dialog.matches@.len());
}

/// A row of the tree that is dropped on a folder is moved into it under its own
/// name, unless it is there already; nothing else is moved.
pub proof fn law_dropping_on_a_folder_moves_into_it(a: App, from: int, to: int, r: BrowseStep, b: App)
    requires
        0 <= from < a.tree@.entries.len(),
        0 <= to < a.tree@.entries.len(),
        a.tree@.entries[to].is_dir,
        drops(a, from, to, r, b),
    ensures
        b == a,
        ({
            let f = a.tree@.entries[from].path;
            let d = a.tree@.entries[to].path;
            match base_name(f) {
                Some(n) => if same_path(joined_path(d, n), f) {
                    r is Nothing
                } else {
                    r matches BrowseStep::Move { from: x, to: y, dir: z } && x@ == f && y@
                        == joined_path(d, n) && z@ == d
                },
                None => r is Nothing,
            }
        }),
{
}

/// Letting go over the text drops an empty selection and every drag, and moves no
/// caret.
pub proof fn law_letting_go_keeps_the_caret(a: App, col: u16, row: u16, r: PointerStep, b: App)
    requires
        a.wf(),
        top_of(a.dialogs@) is None,
        a.shown() is Some,
        releases(a, col, row, r, b),
    ensures
        r is Nothing,
        b.shown() is Some,
        b.shown()->0.cursor == a.shown()->0.cursor,
        b.shown()->0.text == a.shown()->0.text,
        a.shown()->0.anchor == Some(a.shown()->0.cursor) ==> b.shown()->0.anchor is None,
        a.shown()->0.anchor != Some(a.shown()->0.cursor) ==> b.shown()->0.anchor
            == a.shown()->0.anchor,
        b.pointer.tab_drag is None && b.pointer.scrollbar_drag is None,
{
}

} // verus!
