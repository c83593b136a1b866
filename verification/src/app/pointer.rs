//! The mouse in the text: clicks, drags and scrollbars.

use crate::app::browsing::BrowseStep;
use crate::app::dialogs::{no_folder, Needs};
use crate::app::{App, Crumb, Pointer, Thumb};
use crate::buffer::opt_text;
use crate::buffer::state::BufferState;
use crate::dialog::{raised, Dialog};
use crate::hits::{
    first_bar, first_pane, first_tab, gutter, gutter_width, pane_at, pane_from, pane_of,
    scrollbar_pane_at, tab_hit_at,
};
use crate::lines::line_total;
use crate::paths::{is_same_path, same_path};
use crate::tabs::lemma_with_editor;
use crate::toast::ToastKind;
use vstd::prelude::*;
use vstd::string::*;

verus! {

/// `a` less `b`, or nothing.
pub open spec fn less(a: int, b: int) -> int {
    if a > b {
        a - b
    } else {
        0
    }
}

/// A drag of a scrollbar: of `track` rows the thumb is `top` rows down, and the
/// view can go down by `max` lines.
#[derive(Debug, Clone, Copy, PartialEq, Eq, Structural)]
pub struct ThumbDrag {
    pub editor: usize,
    pub top: usize,
    pub track: usize,
    pub max: usize,
}

/// The first thumb from `i` on that belongs to a file.
pub open spec fn first_thumb(thumbs: Seq<Thumb>, editor: usize, i: int) -> Option<Thumb>
    decreases thumbs.len() - i,
{
    if i >= thumbs.len() {
        None
    } else if thumbs[i].editor == editor {
        Some(thumbs[i])
    } else {
        first_thumb(thumbs, editor, i + 1)
    }
}

/// The folder of the first part of the path from `i` on that a column is over.
pub open spec fn first_crumb(crumbs: Seq<Crumb>, col: u16, i: int) -> Option<Seq<char>>
    decreases crumbs.len() - i,
{
    if i >= crumbs.len() {
        None
    } else if crumbs[i].from <= col < crumbs[i].to {
        Some(crumbs[i].folder@)
    } else {
        first_crumb(crumbs, col, i + 1)
    }
}

impl BufferState {
    /// The column of the text that is `col` columns into the view.
    pub open spec fn text_col(self, col: int) -> int {
        less(col, gutter(line_total(self.text) as nat))
    }
}

impl App {
    /// How many rows the tabs take.
    pub open spec fn tab_rows(self) -> int {
        match self.layout.tab_strip {
            Some(r) => r.h as int,
            None => 1,
        }
    }

    /// How many rows the tabs take.
    pub fn tab_strip_rows(&self) -> (r: u16)
        ensures
            r == self.tab_rows(),
    {
        match self.layout.tab_strip {
            Some(r) => r.h,
            None => 1,
        }
    }

    /// Whether the path shows above the text: with one file showing, of an open
    /// folder and with a name.
    pub open spec fn crumbs_shown(self) -> bool {
        !(self.tabs@.grid && self.tabs@.editors.len() > 1) && self.root is Some && (
        self.shown() matches Some(b) && b.path is Some)
    }

    /// Whether the path shows above the text.
    pub fn breadcrumb_row_shown(&self) -> (r: bool)
        requires
            self.wf(),
        ensures
            r == self.crumbs_shown(),
    {
        if self.tabs.in_grid() || self.root.is_none() {
            return false;
        }
        match self.tabs.active {
            Some(i) => {
                assert(self.tabs@.editors[i as int] == self.tabs.editors@[i as int]@);
                self.tabs.editors[i].path.is_some()
            },
            None => false,
        }
    }

    /// The row of the view under a row of the screen.
    pub open spec fn body_row(self, row: u16) -> int {
        less(
            row as int,
            self.tab_rows() + if self.crumbs_shown() {
                1int
            } else {
                0int
            },
        )
    }

    /// Point at a cell of the text that is showing.
    fn place_cursor_at(&mut self, col: u16, row: u16, keep: bool, alt: bool)
        requires
            old(self).wf(),
        ensures
            *final(self) == (App { tabs: final(self).tabs, ..*old(self) }),
            final(self).tabs@ == match old(self).shown() {
                Some(b) => old(self).tabs@.with_current(
                    b.pointed(old(self).body_row(row), b.text_col(col as int), keep, alt),
                ),
                None => old(self).tabs@,
            },
            final(self).wf(),
    {
        if let Some(i) = self.tabs.active {
            let view_row: usize = self.view_row(row);
            self.point_in(i, view_row, col, keep, alt);
        }
    }

    /// Point at a row and a column of the view of a file.
    fn point_in(&mut self, i: usize, view_row: usize, col: u16, keep: bool, alt: bool)
        requires
            old(self).wf(),
            i < old(self).tabs@.editors.len(),
        ensures
            *final(self) == (App { tabs: final(self).tabs, ..*old(self) }),
            final(self).tabs@ == ({
                let b = old(self).tabs@.editors[i as int];
                old(self).tabs@.with_editor(
                    i as int,
                    b.pointed(view_row as int, b.text_col(col as int), keep, alt),
                )
            }),
            final(self).wf(),
    {
        let ghost s = self.tabs@;
        assert(s.editors[i as int] == self.tabs.editors@[i as int]@);
        let b = &mut self.tabs.editors[i];
        let g: u16 = gutter_width(b.line_count());
        let text_col: usize = if col > g {
            (col - g) as usize
        } else {
            0
        };
        b.point_at(view_row, text_col, keep, alt);
        let ghost after = self.tabs.editors@[i as int]@;
        assert(self.tabs@ =~= s.with_editor(i as int, after));
        proof {
            lemma_with_editor(s, i as int, after);
        }
    }

    /// Point at a row and a column of the view of a file, and start a selection
    /// there or take what quick clicks ask for. With Alt a caret is put there
    /// and nothing more.
    fn press_at(&mut self, i: usize, view_row: usize, col: u16, alt: bool)
        requires
            old(self).wf(),
            i < old(self).tabs@.editors.len(),
        ensures
            *final(self) == (App { tabs: final(self).tabs, ..*old(self) }),
            final(self).tabs@ == old(self).tabs@.with_editor(
                i as int,
                pressed_at(
                    old(self).tabs@.editors[i as int],
                    view_row as int,
                    col as int,
                    alt,
                    old(self).pointer.clicks.count,
                ),
            ),
            final(self).wf(),
    {
        let ghost s = self.tabs@;
        assert(s.editors[i as int] == self.tabs.editors@[i as int]@);
        let clicks: u8 = self.pointer.clicks.count;
        self.point_in(i, view_row, col, false, alt);
        if !alt {
            let ghost t = self.tabs@;
            assert(t.editors[i as int] == self.tabs.editors@[i as int]@);
            let b = &mut self.tabs.editors[i];
            b.press(clicks);
            let ghost after = self.tabs.editors@[i as int]@;
            assert(self.tabs@ =~= t.with_editor(i as int, after));
            assert(t.with_editor(i as int, after) =~= s.with_editor(i as int, after));
            proof {
                lemma_with_editor(s, i as int, after);
            }
        }
    }

    /// A press on a pane of the grid.
    fn pane_mouse_down(&mut self, col: u16, row: u16, alt: bool)
        requires
            old(self).wf(),
        ensures
            presses_pane(*old(self), col, row, alt, *final(self)),
            final(self).wf(),
    {
        if let Some(p) = pane_at(&self.layout.panes, col, row) {
            if p.editor < self.tabs.editors.len() {
                self.tabs.focus(p.editor);
                self.press_at(p.editor, (row - p.area.y) as usize, col - p.area.x, alt);
            }
        }
    }

    /// A press on the tabs.
    fn tab_mouse_down(&mut self, col: u16, row: u16)
        requires
            old(self).wf(),
        ensures
            presses_tab(*old(self), col, row, *final(self)),
            final(self).wf(),
    {
        if let Some(i) = tab_hit_at(&self.layout.tab_hits, row, col) {
            if i < self.tabs.editors.len() {
                self.tabs.focus(i);
                self.pointer.tab_drag = Some(i);
            }
        }
    }

    /// The row of the view under a row of the screen.
    fn view_row(&self, row: u16) -> (r: usize)
        requires
            self.wf(),
        ensures
            r == self.body_row(row),
    {
        let above: u32 = self.tab_strip_rows() as u32 + if self.breadcrumb_row_shown() {
            1
        } else {
            0
        };
        if row as u32 > above {
            (row as u32 - above) as usize
        } else {
            0
        }
    }

    /// The thumb of a file's scrollbar.
    fn thumb_of(&self, editor: usize) -> (r: Option<Thumb>)
        ensures
            r == first_thumb(self.layout.thumbs@, editor, 0),
    {
        let mut i: usize = 0;
        while i < self.layout.thumbs.len()
            invariant
                i <= self.layout.thumbs@.len(),
                first_thumb(self.layout.thumbs@, editor, 0) == first_thumb(
                    self.layout.thumbs@,
                    editor,
                    i as int,
                ),
            decreases self.layout.thumbs.len() - i,
        {
            if self.layout.thumbs[i].editor == editor {
                return Some(self.layout.thumbs[i]);
            }
            i = i + 1;
        }
        None
    }

    /// A press on a scrollbar: the thumb is grabbed, and beside it the view goes
    /// a page towards the press.
    fn scrollbar_mouse_down(&mut self, editor: usize, row: u16)
        requires
            old(self).wf(),
        ensures
            presses_bar(*old(self), editor, row, *final(self)),
            final(self).wf(),
    {
        let t = match self.thumb_of(editor) {
            Some(t) => t,
            None => return,
        };
        if row >= t.top && (row - t.top) < t.height {
            self.pointer.scrollbar_drag = Some((editor, row - t.top));
            return;
        }
        let p = match pane_of(&self.layout.panes, editor) {
            Some(p) => p,
            None => return,
        };
        let page: usize = if p.area.h > 2 {
            (p.area.h - 1) as usize
        } else {
            1
        };
        if editor < self.tabs.editors.len() {
            let ghost s = self.tabs@;
            assert(s.editors[editor as int] == self.tabs.editors@[editor as int]@);
            let b = &mut self.tabs.editors[editor];
            b.scroll_page(row < t.top, page);
            let ghost after = self.tabs.editors@[editor as int]@;
            assert(self.tabs@ =~= s.with_editor(editor as int, after));
            proof {
                lemma_with_editor(s, editor as int, after);
            }
        }
    }

    /// Where a drag of a scrollbar puts the thumb.
    pub open spec fn thumb_drag(self, editor: usize, row: u16, grab: u16) -> Option<ThumbDrag> {
        match (pane_from(self.layout.panes@, editor, 0), first_thumb(
            self.layout.thumbs@,
            editor,
            0,
        )) {
            (Some(p), Some(t)) => if editor < self.tabs@.editors.len() {
                let lines = line_total(self.tabs@.editors[editor as int].text);
                let track = if p.area.h > t.height {
                    p.area.h - t.height
                } else {
                    1
                };
                let top = less(row as int, p.area.y + grab);
                if lines <= p.area.h {
                    None
                } else {
                    Some(
                        ThumbDrag {
                            editor,
                            top: (if top < track {
                                top
                            } else {
                                track
                            }) as usize,
                            track: track as usize,
                            max: (lines - p.area.h) as usize,
                        },
                    )
                }
            } else {
                None
            },
            _ => None,
        }
    }

    /// Where a drag of a scrollbar puts the thumb. The share of the track that
    /// lies above it is the share of the lines to be scrolled away.
    fn scrollbar_drag_to(&self, editor: usize, row: u16, grab: u16) -> (r: Option<ThumbDrag>)
        requires
            self.wf(),
        ensures
            r == self.thumb_drag(editor, row, grab),
    {
        let p = match pane_of(&self.layout.panes, editor) {
            Some(p) => p,
            None => return None,
        };
        let t = match self.thumb_of(editor) {
            Some(t) => t,
            None => return None,
        };
        if editor >= self.tabs.editors.len() {
            return None;
        }
        assert(self.tabs@.editors[editor as int] == self.tabs.editors@[editor as int]@);
        let lines: usize = self.tabs.editors[editor].line_count();
        let rows: usize = p.area.h as usize;
        if lines <= rows {
            return None;
        }
        let track: usize = if p.area.h > t.height {
            (p.area.h - t.height) as usize
        } else {
            1
        };
        let first: u32 = p.area.y as u32 + grab as u32;
        let top: usize = if row as u32 > first {
            (row as u32 - first) as usize
        } else {
            0
        };
        Some(
            ThumbDrag {
                editor,
                top: if top < track {
                    top
                } else {
                    track
                },
                track,
                max: lines - rows,
            },
        )
    }

    /// Scroll a file to a line, as far as the drag goes.
    pub fn scroll_to(&mut self, drag: ThumbDrag, line: usize)
        requires
            old(self).wf(),
            drag.editor < old(self).tabs@.editors.len(),
        ensures
            *final(self) == (App { tabs: final(self).tabs, ..*old(self) }),
            final(self).tabs@ == old(self).tabs@.with_editor(
                drag.editor as int,
                BufferState {
                    scroll_row: if line < drag.max {
                        line as int
                    } else {
                        drag.max as int
                    },
                    ..old(self).tabs@.editors[drag.editor as int]
                },
            ),
            final(self).wf(),
    {
        let ghost s = self.tabs@;
        let i: usize = drag.editor;
        assert(s.editors[i as int] == self.tabs.editors@[i as int]@);
        let b = &mut self.tabs.editors[i];
        b.scroll_row = if line < drag.max {
            line
        } else {
            drag.max
        };
        let ghost after = self.tabs.editors@[i as int]@;
        assert(self.tabs@ =~= s.with_editor(i as int, after));
        proof {
            lemma_with_editor(s, i as int, after);
        }
    }

    /// Open the file dialog limited to `folder`; the open folder itself lifts
    /// the limit. Without an open folder there is nothing to open.
    pub fn breadcrumb_click(&mut self, folder: &str) -> (r: BrowseStep)
        requires
            old(self).wf(),
        ensures
            clicks_crumb(*old(self), folder@, r, *final(self)),
            final(self).wf(),
    {
        let needs = self.open_file_dialog();
        if needs == Needs::Files {
            self.file_dialog.open();
        }
        if !self.file_dialog.active {
            return BrowseStep::Nothing;
        }
        let whole = match &self.root {
            Some(r) => is_same_path(r.as_str(), folder),
            None => false,
        };
        self.scope = if whole {
            None
        } else {
            Some(folder.to_owned())
        };
        BrowseStep::Reroot(folder.to_owned())
    }

    /// A press on the path above the text.
    fn breadcrumb_mouse_down(&mut self, col: u16) -> (r: BrowseStep)
        requires
            old(self).wf(),
        ensures
            match first_crumb(old(self).layout.crumbs@, col, 0) {
                Some(f) => clicks_crumb(*old(self), f, r, *final(self)),
                None => *final(self) == *old(self) && r is Nothing,
            },
            final(self).wf(),
    {
        let mut i: usize = 0;
        while i < self.layout.crumbs.len()
            invariant
                *self == *old(self),
                self.wf(),
                i <= self.layout.crumbs@.len(),
                first_crumb(self.layout.crumbs@, col, 0) == first_crumb(
                    self.layout.crumbs@,
                    col,
                    i as int,
                ),
            decreases self.layout.crumbs.len() - i,
        {
            if col >= self.layout.crumbs[i].from && col < self.layout.crumbs[i].to {
                let folder = self.layout.crumbs[i].folder.clone();
                return self.breadcrumb_click(folder.as_str());
            }
            i = i + 1;
        }
        BrowseStep::Nothing
    }

    /// A press of the button over the text: a scrollbar, a tab, the path above
    /// the text, or the text itself, where the caret goes. The find bar closes.
    pub fn editor_mouse_down(&mut self, col: u16, row: u16, alt: bool) -> (r: BrowseStep)
        requires
            old(self).wf(),
        ensures
            presses_editor(*old(self), col, row, alt, r, *final(self)),
            final(self).wf(),
    {
        if self.prompt.active || self.dialogs.len() > 0 || self.tabs.active.is_none() {
            return BrowseStep::Nothing;
        }
        if self.find.active {
            self.find_close();
        }
        self.body_mouse_down(col, row, alt)
    }

    /// A press below the find bar.
    fn body_mouse_down(&mut self, col: u16, row: u16, alt: bool) -> (r: BrowseStep)
        requires
            old(self).wf(),
            old(self).tabs@.active is Some,
        ensures
            presses_body(*old(self), col, row, alt, r, *final(self)),
            final(self).wf(),
    {
        if let Some(editor) = scrollbar_pane_at(&self.layout.panes, col, row) {
            self.scrollbar_mouse_down(editor, row);
            return BrowseStep::Nothing;
        }
        if self.tabs.in_grid() {
            self.pane_mouse_down(col, row, alt);
            return BrowseStep::Nothing;
        }
        let tab_rows: u16 = self.tab_strip_rows();
        if row < tab_rows {
            self.tab_mouse_down(col, row);
            return BrowseStep::Nothing;
        }
        if row == tab_rows && self.breadcrumb_row_shown() {
            return self.breadcrumb_mouse_down(col);
        }
        if let Some(i) = self.tabs.active {
            let view_row: usize = self.view_row(row);
            self.press_at(i, view_row, col, alt);
        }
        BrowseStep::Nothing
    }

    /// A movement with the button held over the text: the scrollbar that was
    /// grabbed follows, else the selection goes on to the cell. Quick clicks
    /// that did not leave their cell keep what they took.
    pub fn editor_mouse_drag(&mut self, col: u16, row: u16) -> (r: Option<ThumbDrag>)
        requires
            old(self).wf(),
        ensures
            drags_editor(*old(self), col, row, r, *final(self)),
            final(self).wf(),
    {
        if self.prompt.active || self.dialogs.len() > 0 || self.tabs.active.is_none() {
            return None;
        }
        if let Some((editor, grab)) = self.pointer.scrollbar_drag {
            return self.scrollbar_drag_to(editor, row, grab);
        }
        if self.pointer.clicks.click_stayed_on_press_cell(col, row) {
            return None;
        }
        if self.tabs.in_grid() {
            if let Some(i) = self.tabs.active {
                if let Some(p) = pane_of(&self.layout.panes, i) {
                    let (r, c) = p.area.clamp_cell(col, row);
                    self.point_in(i, r as usize, c, true, false);
                }
            }
            return None;
        }
        if row == 0 {
            return None;
        }
        self.place_cursor_at(col, row, true, false);
        None
    }

    /// A release of the button over the text: a selection that is empty goes.
    pub fn editor_mouse_up(&mut self)
        requires
            old(self).wf(),
        ensures
            *final(self) == (App { tabs: final(self).tabs, ..*old(self) }),
            final(self).tabs@ == match old(self).shown() {
                Some(b) => old(self).tabs@.with_current(b.released()),
                None => old(self).tabs@,
            },
            final(self).wf(),
    {
        if let Some(i) = self.tabs.active {
            let ghost s = self.tabs@;
            assert(s.editors[i as int] == self.tabs.editors@[i as int]@);
            let b = &mut self.tabs.editors[i];
            b.release();
            let ghost after = self.tabs.editors@[i as int]@;
            assert(self.tabs@ =~= s.with_editor(i as int, after));
            proof {
                lemma_with_editor(s, i as int, after);
            }
        }
    }
}

/// Whether a press at a row of a file's scrollbar makes `b` of `a`.
pub open spec fn presses_bar(a: App, editor: usize, row: u16, b: App) -> bool {
    match first_thumb(a.layout.thumbs@, editor, 0) {
        Some(t) => if t.top <= row && row < t.top + t.height {
            b == App {
                pointer: Pointer {
                    scrollbar_drag: Some((editor, (row - t.top) as u16)),
                    ..a.pointer
                },
                ..a
            }
        } else {
            match pane_from(a.layout.panes@, editor, 0) {
                Some(p) => if editor < a.tabs@.editors.len() {
                    let page = if p.area.h > 2 {
                        p.area.h - 1
                    } else {
                        1
                    };
                    &&& b == App { tabs: b.tabs, ..a }
                    &&& b.tabs@ == a.tabs@.with_editor(
                        editor as int,
                        a.tabs@.editors[editor as int].paged(row < t.top, page),
                    )
                } else {
                    b == a
                },
                None => b == a,
            }
        },
        None => b == a,
    }
}

/// Whether a click on a part of the path that names `folder` makes `b` of `a`
/// and leaves `r` to do.
pub open spec fn clicks_crumb(a: App, folder: Seq<char>, r: BrowseStep, b: App) -> bool {
    &&& b == App {
        dialogs: b.dialogs,
        file_dialog: b.file_dialog,
        scope: b.scope,
        toast: b.toast,
        ..a
    }
    &&& if a.root is None {
        b.dialogs == a.dialogs && b.tells(no_folder(), ToastKind::Info)
    } else {
        b.dialogs@ == raised(a.dialogs@, Dialog::Files) && b.toast == a.toast
    }
    &&& if a.root is None || a.dialogs@.contains(Dialog::Files) {
        b.file_dialog == a.file_dialog
    } else {
        b.file_dialog.active && b.file_dialog.blank() && b.file_dialog.same_cache(&a.file_dialog)
    }
    &&& if b.file_dialog.active {
        &&& opt_text(b.scope) == if a.root matches Some(p) && same_path(p@, folder) {
            None
        } else {
            Some(folder)
        }
        &&& r matches BrowseStep::Reroot(f) && f@ == folder
    } else {
        b.scope == a.scope && r is Nothing
    }
}

/// A file after a press at a row and a column of its view.
pub open spec fn pressed_at(b: BufferState, row: int, col: int, alt: bool, clicks: u8) -> BufferState {
    let p = b.pointed(row, b.text_col(col), false, alt);
    if alt {
        p
    } else {
        p.pressed(clicks)
    }
}

/// Whether a press on a pane of the grid makes `b` of `a`.
pub open spec fn presses_pane(a: App, col: u16, row: u16, alt: bool, b: App) -> bool {
    match first_pane(a.layout.panes@, col, row, 0) {
        Some(p) => if p.editor < a.tabs@.editors.len() {
            &&& b == App { tabs: b.tabs, ..a }
            &&& b.tabs@ == a.tabs@.focused(p.editor as int).with_editor(
                p.editor as int,
                pressed_at(
                    a.tabs@.editors[p.editor as int],
                    row - p.area.y,
                    col - p.area.x,
                    alt,
                    a.pointer.clicks.count,
                ),
            )
        } else {
            b == a
        },
        None => b == a,
    }
}

/// Whether a press on the tabs makes `b` of `a`.
pub open spec fn presses_tab(a: App, col: u16, row: u16, b: App) -> bool {
    match first_tab(a.layout.tab_hits@, row, col, 0) {
        Some(i) => if i < a.tabs@.editors.len() {
            &&& b == App {
                tabs: b.tabs,
                pointer: Pointer { tab_drag: Some(i), ..a.pointer },
                ..a
            }
            &&& b.tabs@ == a.tabs@.focused(i as int)
        } else {
            b == a
        },
        None => b == a,
    }
}

/// Whether a press below the find bar makes `b` of `a` and leaves `r` to do.
pub open spec fn presses_body(
    a: App,
    col: u16,
    row: u16,
    alt: bool,
    r: BrowseStep,
    b: App,
) -> bool {
    match first_bar(a.layout.panes@, col, row, 0) {
        Some(editor) => presses_bar(a, editor, row, b) && r is Nothing,
        None => if a.tabs@.grid && a.tabs@.editors.len() > 1 {
            presses_pane(a, col, row, alt, b) && r is Nothing
        } else if row < a.tab_rows() {
            presses_tab(a, col, row, b) && r is Nothing
        } else if row == a.tab_rows() && a.crumbs_shown() {
            match first_crumb(a.layout.crumbs@, col, 0) {
                Some(f) => clicks_crumb(a, f, r, b),
                None => b == a && r is Nothing,
            }
        } else {
            &&& r is Nothing
            &&& b == App { tabs: b.tabs, ..a }
            &&& b.tabs@ == a.tabs@.with_current(
                pressed_at(
                    a.shown()->0,
                    a.body_row(row),
                    col as int,
                    alt,
                    a.pointer.clicks.count,
                ),
            )
        },
    }
}

/// Whether a press over the text makes `b` of `a` and leaves `r` to do.
pub open spec fn presses_editor(
    a: App,
    col: u16,
    row: u16,
    alt: bool,
    r: BrowseStep,
    b: App,
) -> bool {
    if a.prompt.active || a.dialogs@.len() > 0 || a.tabs@.active is None {
        b == a && r is Nothing
    } else {
        &&& if a.find.active {
            b.find@ == a.find@.closed()
        } else {
            b.find == a.find
        }
        &&& presses_body(App { find: b.find, ..a }, col, row, alt, r, b)
    }
}

/// Whether a movement with the button held over the text makes `b` of `a`, and
/// where it puts a scrollbar's thumb.
pub open spec fn drags_editor(a: App, col: u16, row: u16, r: Option<ThumbDrag>, b: App) -> bool {
    let c = a.pointer.clicks;
    let stayed = c.count >= 2 && (c.last matches Some((_, x, y)) && x == col && y == row);
    if a.prompt.active || a.dialogs@.len() > 0 || a.tabs@.active is None {
        b == a && r is None
    } else {
        match a.pointer.scrollbar_drag {
            Some((editor, grab)) => b == a && r == a.thumb_drag(editor, row, grab),
            None => {
                let i = a.tabs@.active->0;
                let f = a.tabs@.editors[i];
                &&& r is None
                &&& if stayed {
                    b == a
                } else if a.tabs@.grid && a.tabs@.editors.len() > 1 {
                    match pane_from(a.layout.panes@, i as usize, 0) {
                        Some(p) => {
                            let (y, x) = p.area.nearest(col, row);
                            &&& b == App { tabs: b.tabs, ..a }
                            &&& b.tabs@ == a.tabs@.with_current(
                                f.pointed(y, f.text_col(x), true, false),
                            )
                        },
                        None => b == a,
                    }
                } else if row == 0 {
                    b == a
                } else {
                    &&& b == App { tabs: b.tabs, ..a }
                    &&& b.tabs@ == a.tabs@.with_current(
                        f.pointed(a.body_row(row), f.text_col(col as int), true, false),
                    )
                }
            },
        }
    }
}

/// A drag that stays on the cell of quick clicks leaves what they took.
pub proof fn law_a_still_mouse_keeps_the_clicked_word(a: App, col: u16, row: u16, r: Option<
    ThumbDrag,
>, b: App)
    requires
        a.pointer.clicks.count >= 2,
        a.pointer.clicks.last matches Some((_, x, y)) && x == col && y == row,
        a.pointer.scrollbar_drag is None,
        drags_editor(a, col, row, r, b),
    ensures
        b == a,
{
}

} // verus!
