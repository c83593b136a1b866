//! The mouse: presses, drags, releases and the wheel go to the file dialog, the
//! terminal or the text, whichever has the focus.

use crate::app::browsing::{opens, steps, toggles_tick, BrowseStep};
use crate::app::pointer::{drags_editor, presses_editor, ThumbDrag};
use crate::app::showing::moves_tabs;
use crate::app::terminal::{drags_terminal, extends_terminal, presses_terminal, TermMouse};
use crate::app::{App, Pointer};
use crate::buffer::opt_int;
use crate::dialog::{top_of, Dialog};
use crate::filedialog::FileDialog;
use crate::fstree::FileTree;
use crate::hits::{
    dialog_row_at, first_rect, first_tab, row_under, strip_hit, tab_hit_at, terminal_grid_hit,
    Clicks, Rect,
};
use crate::paths::{base_name, file_name, is_same_path, join_path, joined_path, same_path};
use crate::terminals::Terminals;
use vstd::prelude::*;
use vstd::string::*;

verus! {

/// What is left to do after the mouse was used.
#[derive(Debug)]
pub enum PointerStep {
    Nothing,
    Browse(BrowseStep),
    Terminal(TermMouse),
    /// A scrollbar is dragged.
    Thumb(ThumbDrag),
}

impl App {
    /// Whether the mouse goes to the file dialog.
    pub open spec fn files_focused(self) -> bool {
        !self.prompt.active && top_of(self.dialogs@) == Some(Dialog::Files)
    }

    /// Whether the mouse goes to the file dialog.
    fn dialog_takes_mouse(&self) -> (r: bool)
        ensures
            r == self.files_focused(),
    {
        !self.prompt.active && match self.top_dialog() {
            Some(Dialog::Files) => true,
            _ => false,
        }
    }

    /// The row of the file dialog's list under a cell.
    pub open spec fn list_row(self, col: u16, row: u16) -> Option<int> {
        row_under(self.layout.list, self.layout.list_start as int, col, row)
    }

    /// The editor with a row of the tree selected and no row dragged.
    pub open spec fn tree_at(self, i: int) -> App {
        App {
            tree: FileTree { selected: i as usize, ..self.tree },
            pointer: Pointer { tree_drag: None, ..self.pointer },
            ..self
        }
    }

    /// The editor with a row of the list selected and no row dragged.
    pub open spec fn list_at(self, i: int) -> App {
        App {
            file_dialog: FileDialog { selected: i as usize, ..self.file_dialog },
            pointer: Pointer { tree_drag: None, ..self.pointer },
            ..self
        }
    }

    /// A press over the file dialog: a row is selected. On the arrow of a folder
    /// it opens or closes, on any other place of the tree a drag begins; on the
    /// tick of a file that is toggled.
    pub fn dialog_mouse_down(&mut self, col: u16, row: u16) -> (r: BrowseStep)
        requires
            old(self).wf(),
        ensures
            presses_list(*old(self), col, row, r, *final(self)),
            final(self).wf(),
    {
        self.pointer.tree_drag = None;
        let area = match self.layout.list {
            Some(a) => a,
            None => return BrowseStep::Nothing,
        };
        let idx: usize = match dialog_row_at(
            self.layout.list,
            self.layout.list_start,
            col,
            row,
        ) {
            Some(i) => i,
            None => return BrowseStep::Nothing,
        };
        if self.dialog_tree_mode() {
            return self.tree_mouse_down(idx, area, col);
        }
        if idx < self.file_dialog.matches.len() {
            self.file_dialog.selected = idx;
            if self.file_dialog.checked.len() > 0 && col == area.x {
                self.dialog_toggle_check();
            }
        }
        BrowseStep::Nothing
    }

    /// A press on a row of the tree.
    fn tree_mouse_down(&mut self, idx: usize, area: Rect, col: u16) -> (r: BrowseStep)
        requires
            old(self).wf(),
            old(self).file_dialog.query@.len() == 0,
            old(self).pointer.tree_drag is None,
            col >= area.x,
        ensures
            presses_row(*old(self), idx as int, area, col, r, *final(self)),
            final(self).wf(),
    {
        if idx >= self.tree.entries.len() {
            return BrowseStep::Nothing;
        }
        assert(self.tree@.entries[idx as int] == self.tree.entries@[idx as int]@);
        let is_dir = self.tree.entries[idx].is_dir;
        let depth: usize = self.tree.entries[idx].depth;
        let ghost rows = self.tree@.entries;
        self.tree.selected = idx;
        assert(self.tree@.entries =~= rows);
        if is_dir && ((col - area.x) / 2) as usize == depth {
            return self.dialog_open_selected();
        }
        self.pointer.tree_drag = Some(idx);
        BrowseStep::Nothing
    }

    /// A release over the file dialog: the selected row opens, and a row of the
    /// tree that was dragged onto a folder goes there.
    pub fn dialog_mouse_up(&mut self, col: u16, row: u16) -> (r: BrowseStep)
        requires
            old(self).wf(),
        ensures
            releases_list(*old(self), col, row, r, *final(self)),
            final(self).wf(),
    {
        let dragged: usize = match self.pointer.tree_drag {
            Some(i) => i,
            None => {
                if self.dialog_tree_mode() {
                    return BrowseStep::Nothing;
                }
                return self.dialog_open_selected();
            },
        };
        self.pointer.tree_drag = None;
        if let Some(target) = dialog_row_at(self.layout.list, self.layout.list_start, col, row) {
            if target != dragged {
                return self.drop_tree_entry(dragged, target);
            }
        }
        self.dialog_open_selected()
    }

    /// A row of the tree was dragged onto another one. On a folder it is to be
    /// moved there, unless it is there already; on a file it opens.
    pub fn drop_tree_entry(&mut self, from: usize, to: usize) -> (r: BrowseStep)
        requires
            old(self).wf(),
        ensures
            drops(*old(self), from as int, to as int, r, *final(self)),
            final(self).wf(),
    {
        if from >= self.tree.entries.len() || to >= self.tree.entries.len() {
            return BrowseStep::Nothing;
        }
        assert(self.tree@.entries[from as int] == self.tree.entries@[from as int]@);
        assert(self.tree@.entries[to as int] == self.tree.entries@[to as int]@);
        if !self.tree.entries[to].is_dir {
            let ghost rows = self.tree@.entries;
            self.tree.selected = from;
            assert(self.tree@.entries =~= rows);
            return self.dialog_open_selected();
        }
        move_step(self.tree.entries[from].path.as_str(), self.tree.entries[to].path.as_str())
    }

    /// A press of the button at a cell of the screen. With Shift text of the
    /// terminal is selected though the program there takes the mouse, and with
    /// Alt one more caret is put.
    pub fn mouse_down(&mut self, col: u16, row: u16, shift: bool, alt: bool) -> (r: PointerStep)
        requires
            old(self).wf(),
        ensures
            presses(*old(self), col, row, shift, alt, r, *final(self)),
            final(self).wf(),
    {
        let now: u64 = self.now;
        self.pointer.clicks.bump_click(now, col, row);
        if self.dialog_takes_mouse() {
            return PointerStep::Browse(self.dialog_mouse_down(col, row));
        }
        if self.terminal_focused() {
            return PointerStep::Terminal(self.shell_mouse_down(col, row, shift));
        }
        self.pointer.to_program = false;
        PointerStep::Browse(self.editor_mouse_down(col, row, alt))
    }

    /// The tab of a terminal under a cell.
    pub open spec fn terminal_tab_under(self, col: u16, row: u16) -> Option<usize> {
        match self.layout.terminal_strip {
            Some(s) => if s.holds(col, row) {
                first_tab(self.layout.terminal_hits@, (row - s.y) as u16, col, 0)
            } else {
                None
            },
            None => None,
        }
    }

    /// A press over the terminals: on a tab or a cell of the grid that terminal
    /// is shown, else the press goes to the program or starts a selection.
    fn shell_mouse_down(&mut self, col: u16, row: u16, shift: bool) -> (r: TermMouse)
        requires
            old(self).wf(),
        ensures
            presses_shell(*old(self), col, row, shift, r, *final(self)),
            final(self).wf(),
    {
        if let Some(i) = strip_hit(
            self.layout.terminal_strip,
            &self.layout.terminal_hits,
            col,
            row,
        ) {
            if i < self.terminals.list.len() {
                self.show_terminal(i);
                self.pointer.terminal_tab_drag = Some(i);
            }
            return TermMouse::Nothing;
        }
        if let Some(i) = terminal_grid_hit(&self.layout.terminal_cells, col, row) {
            if i != self.terminals.active && i < self.terminals.list.len() {
                self.show_terminal(i);
                return TermMouse::Nothing;
            }
        }
        self.shell_body_mouse_down(col, row, shift)
    }

    /// Show the terminal `i`.
    fn show_terminal(&mut self, i: usize)
        requires
            old(self).wf(),
            i < old(self).terminals@.list.len(),
        ensures
            *final(self) == (App {
                terminals: Terminals { active: i, ..old(self).terminals },
                ..*old(self)
            }),
            final(self).wf(),
    {
        let ghost list = self.terminals@.list;
        self.terminals.active = i;
        assert(self.terminals@.list =~= list);
    }

    /// A press in the terminal that shows.
    fn shell_body_mouse_down(&mut self, col: u16, row: u16, shift: bool) -> (r: TermMouse)
        requires
            old(self).wf(),
        ensures
            presses_body_of_shell(*old(self), col, row, shift, r, *final(self)),
            final(self).wf(),
    {
        if self.terminal_wants_mouse() && !shift {
            self.pointer.to_program = true;
            return self.terminal_mouse_down_report(col, row);
        }
        self.pointer.to_program = false;
        if shift {
            self.terminal_mouse_extend(col, row)
        } else {
            self.terminal_mouse_down(col, row)
        }
    }

    /// Whether the program in the terminal takes the mouse.
    pub fn terminal_wants_mouse(&self) -> (r: bool)
        requires
            self.wf(),
        ensures
            r == (self.terminals@.current() matches Some(t) && t.wants_mouse),
    {
        self.terminals.terminal_wants_mouse()
    }

    /// A movement with the button held: a tab that was grabbed goes along, else
    /// the gesture goes on where it began.
    pub fn mouse_drag(&mut self, col: u16, row: u16) -> (r: PointerStep)
        requires
            old(self).wf(),
        ensures
            drags(*old(self), col, row, r, *final(self)),
            final(self).wf(),
    {
        if self.terminal_focused() {
            if let Some(dragged) = self.pointer.terminal_tab_drag {
                if let Some(j) = strip_hit(
                    self.layout.terminal_strip,
                    &self.layout.terminal_hits,
                    col,
                    row,
                ) {
                    if j != dragged {
                        self.terminals.reorder_terminal_tab(dragged, j);
                        self.pointer.terminal_tab_drag = Some(j);
                    }
                }
                return PointerStep::Nothing;
            }
            if self.pointer.to_program {
                return PointerStep::Terminal(self.terminal_mouse_drag_report(col, row));
            }
            return PointerStep::Terminal(self.terminal_mouse_drag(col, row));
        }
        if let Some(dragged) = self.pointer.tab_drag {
            if row < self.tab_strip_rows() {
                if let Some(j) = tab_hit_at(&self.layout.tab_hits, row, col) {
                    if j != dragged {
                        if self.tabs.reorder_editor_tab(dragged, j) {
                            self.highlights.done = Vec::new();
                        }
                        self.pointer.tab_drag = Some(j);
                    }
                }
            }
            return PointerStep::Nothing;
        }
        match self.editor_mouse_drag(col, row) {
            Some(t) => PointerStep::Thumb(t),
            None => PointerStep::Nothing,
        }
    }

    /// A release of the button.
    pub fn mouse_up(&mut self, col: u16, row: u16) -> (r: PointerStep)
        requires
            old(self).wf(),
        ensures
            releases(*old(self), col, row, r, *final(self)),
            final(self).wf(),
    {
        self.pointer.tab_drag = None;
        self.pointer.terminal_tab_drag = None;
        self.pointer.scrollbar_drag = None;
        if self.dialog_takes_mouse() {
            return PointerStep::Browse(self.dialog_mouse_up(col, row));
        }
        if self.terminal_focused() {
            if self.pointer.to_program {
                let r = self.terminal_mouse_up_report(col, row);
                self.pointer.to_program = false;
                return PointerStep::Terminal(r);
            }
            self.terminal_mouse_up();
            return PointerStep::Nothing;
        }
        self.editor_mouse_up();
        PointerStep::Nothing
    }

    /// The wheel was turned by so many lines; up where they are positive.
    pub fn mouse_wheel(&mut self, lines: i32, col: u16, row: u16, shift: bool) -> (r: PointerStep)
        requires
            old(self).wf(),
            lines > i32::MIN,
        ensures
            if old(self).files_focused() {
                &&& r is Nothing
                &&& steps(
                    *old(self),
                    *final(self),
                    lines > 0,
                    (if lines < -10 || lines > 10 {
                        10
                    } else if lines < 0 {
                        -lines
                    } else {
                        lines as int
                    }) as nat,
                )
            } else if top_of(old(self).dialogs@) == Some(Dialog::Terminal) {
                &&& *final(self) == *old(self)
                &&& r == PointerStep::Terminal(old(self).wheel(lines, col, row, shift))
            } else {
                &&& r is Nothing
                &&& *final(self) == (App { tabs: final(self).tabs, ..*old(self) })
                &&& final(self).tabs@ == old(self).tabs@.scrolled(-lines, old(self).now)
            },
            final(self).wf(),
    {
        if self.dialog_takes_mouse() {
            self.dialog_wheel(lines);
            return PointerStep::Nothing;
        }
        if self.terminal_focused() {
            return PointerStep::Terminal(self.terminal_wheel(lines, col, row, shift));
        }
        let now: u64 = self.now;
        self.tabs.editor_scroll(0 - lines, now);
        PointerStep::Nothing
    }

    /// While a selection in the terminal is held against an edge, the view goes
    /// on there.
    pub fn mouse_drag_tick(&self) -> (r: TermMouse)
        requires
            self.wf(),
        ensures
            r == match (self.pointer.selected_to, self.layout.terminal_view) {
                (Some((row, col)), Some(v)) => if !self.pointer.to_program
                    && self.pointer.selecting && (row == 0 || row + 1 >= v.h)
                    && self.terminals@.current() is Some {
                    TermMouse::Update { row, col }
                } else {
                    TermMouse::Nothing
                },
                _ => TermMouse::Nothing,
            },
    {
        if self.pointer.to_program {
            return TermMouse::Nothing;
        }
        self.terminal_drag_autoscroll()
    }

    /// The row of the file dialog under the mouse stands out.
    pub fn dialog_mouse_move(&mut self, col: u16, row: u16)
        requires
            old(self).wf(),
        ensures
            *final(self) == (App {
                pointer: Pointer { hover: final(self).pointer.hover, ..old(self).pointer },
                ..*old(self)
            }),
            opt_int(final(self).pointer.hover) == old(self).list_row(col, row),
            final(self).wf(),
    {
        self.pointer.hover = dialog_row_at(self.layout.list, self.layout.list_start, col, row);
    }

    /// A movement with no button held: the row of the file dialog under the
    /// mouse stands out.
    pub fn mouse_move(&mut self, col: u16, row: u16)
        requires
            old(self).wf(),
        ensures
            *final(self) == (App {
                pointer: Pointer { hover: final(self).pointer.hover, ..old(self).pointer },
                ..*old(self)
            }),
            opt_int(final(self).pointer.hover) == if old(self).files_focused() {
                old(self).list_row(col, row)
            } else {
                None
            },
            final(self).wf(),
    {
        if self.dialog_takes_mouse() {
            self.dialog_mouse_move(col, row);
        } else {
            self.pointer.hover = None;
        }
    }
}

/// What it takes to move `from` into the folder `dir`.
pub open spec fn moves_into(from: Seq<char>, dir: Seq<char>, r: BrowseStep) -> bool {
    match base_name(from) {
        Some(n) => if same_path(joined_path(dir, n), from) {
            r is Nothing
        } else {
            r matches BrowseStep::Move { from: f, to: t, dir: d } && f@ == from && t@
                == joined_path(dir, n) && d@ == dir
        },
        None => r is Nothing,
    }
}

/// What it takes to move `from` into the folder `dir`, under its own name.
pub fn move_step(from: &str, dir: &str) -> (r: BrowseStep)
    ensures
        moves_into(from@, dir@, r),
{
    let name = match file_name(from) {
        Some(n) => n,
        None => return BrowseStep::Nothing,
    };
    let to = join_path(dir, name.as_str());
    if is_same_path(to.as_str(), from) {
        return BrowseStep::Nothing;
    }
    BrowseStep::Move { from: from.to_owned(), to, dir: dir.to_owned() }
}

/// Whether a press on the row `i` of the tree makes `b` of `a` and leaves `r` to
/// do.
pub open spec fn presses_row(a: App, i: int, area: Rect, col: u16, r: BrowseStep, b: App) -> bool {
    if i < a.tree@.entries.len() {
        let e = a.tree@.entries[i];
        if e.is_dir && (col - area.x) / 2 == e.depth {
            opens(a.tree_at(i), r, b)
        } else {
            let m = a.tree_at(i);
            &&& b == App { pointer: Pointer { tree_drag: Some(i as usize), ..m.pointer }, ..m }
            &&& r is Nothing
        }
    } else {
        b == a && r is Nothing
    }
}

/// Whether a press over the file dialog makes `b` of `a` and leaves `r` to do.
pub open spec fn presses_list(a: App, col: u16, row: u16, r: BrowseStep, b: App) -> bool {
    let m = App { pointer: Pointer { tree_drag: None, ..a.pointer }, ..a };
    match a.list_row(col, row) {
        Some(i) => if a.file_dialog.query@.len() == 0 {
            presses_row(m, i, a.layout.list->0, col, r, b)
        } else if i < a.file_dialog.matches@.len() {
            &&& r is Nothing
            &&& if a.file_dialog.checked@.len() > 0 && col == a.layout.list->0.x {
                toggles_tick(a.list_at(i), b)
            } else {
                b == a.list_at(i)
            }
        } else {
            b == m && r is Nothing
        },
        None => b == m && r is Nothing,
    }
}

/// Whether dropping the row `from` of the tree on the row `to` makes `b` of `a`
/// and leaves `r` to do.
pub open spec fn drops(a: App, from: int, to: int, r: BrowseStep, b: App) -> bool {
    let rows = a.tree@.entries;
    if from < rows.len() && to < rows.len() {
        if rows[to].is_dir {
            b == a && moves_into(rows[from].path, rows[to].path, r)
        } else {
            opens(App { tree: FileTree { selected: from as usize, ..a.tree }, ..a }, r, b)
        }
    } else {
        b == a && r is Nothing
    }
}

/// Whether a release over the file dialog makes `b` of `a` and leaves `r` to do.
pub open spec fn releases_list(a: App, col: u16, row: u16, r: BrowseStep, b: App) -> bool {
    match a.pointer.tree_drag {
        Some(d) => {
            let m = App { pointer: Pointer { tree_drag: None, ..a.pointer }, ..a };
            match a.list_row(col, row) {
                Some(t) => if t != d {
                    drops(m, d as int, t, r, b)
                } else {
                    opens(m, r, b)
                },
                None => opens(m, r, b),
            }
        },
        None => if a.file_dialog.query@.len() == 0 {
            b == a && r is Nothing
        } else {
            opens(a, r, b)
        },
    }
}

/// Whether a press over the terminals makes `b` of `a` and leaves `r` to do.
pub open spec fn presses_shell(
    a: App,
    col: u16,
    row: u16,
    shift: bool,
    r: TermMouse,
    b: App,
) -> bool {
    let n = a.terminals@.list.len();
    match a.terminal_tab_under(col, row) {
        Some(i) => {
            &&& r is Nothing
            &&& b == if i < n {
                App {
                    terminals: Terminals { active: i, ..a.terminals },
                    pointer: Pointer { terminal_tab_drag: Some(i), ..a.pointer },
                    ..a
                }
            } else {
                a
            }
        },
        None => match first_rect(a.layout.terminal_cells@, col, row, 0) {
            Some(i) => if i != a.terminals.active && i < n {
                &&& r is Nothing
                &&& b == App { terminals: Terminals { active: i as usize, ..a.terminals }, ..a }
            } else {
                presses_body_of_shell(a, col, row, shift, r, b)
            },
            None => presses_body_of_shell(a, col, row, shift, r, b),
        },
    }
}

/// Whether a press in the terminal that shows makes `b` of `a` and leaves `r` to
/// do.
pub open spec fn presses_body_of_shell(
    a: App,
    col: u16,
    row: u16,
    shift: bool,
    r: TermMouse,
    b: App,
) -> bool {
    let m = App { pointer: Pointer { to_program: false, ..a.pointer }, ..a };
    if shift {
        extends_terminal(m, col, row, r, b)
    } else if a.terminals@.current() matches Some(t) && t.wants_mouse {
        &&& b == App { pointer: Pointer { to_program: true, ..a.pointer }, ..a }
        &&& r == a.report(col, row, 0, false, false)
    } else {
        presses_terminal(m, col, row, r, b)
    }
}

/// Whether a press makes `b` of `a` and leaves `r` to do.
pub open spec fn presses(
    a: App,
    col: u16,
    row: u16,
    shift: bool,
    alt: bool,
    r: PointerStep,
    b: App,
) -> bool {
    let clicks = Clicks {
        last: Some((a.now, col, row)),
        count: a.pointer.clicks.with_press(a.now, col, row) as u8,
    };
    let m = App { pointer: Pointer { clicks, ..a.pointer }, ..a };
    if a.files_focused() {
        r matches PointerStep::Browse(s) && presses_list(m, col, row, s, b)
    } else if top_of(a.dialogs@) == Some(Dialog::Terminal) {
        r matches PointerStep::Terminal(s) && presses_shell(m, col, row, shift, s, b)
    } else {
        r matches PointerStep::Browse(s) && presses_editor(
            App { pointer: Pointer { to_program: false, ..m.pointer }, ..m },
            col,
            row,
            alt,
            s,
            b,
        )
    }
}

/// Whether a movement with the button held makes `b` of `a` and leaves `r` to
/// do.
pub open spec fn drags(a: App, col: u16, row: u16, r: PointerStep, b: App) -> bool {
    if top_of(a.dialogs@) == Some(Dialog::Terminal) {
        match a.pointer.terminal_tab_drag {
            Some(d) => {
                &&& r is Nothing
                &&& match a.terminal_tab_under(col, row) {
                    Some(j) => if j != d {
                        &&& b == App {
                            terminals: b.terminals,
                            pointer: Pointer { terminal_tab_drag: Some(j), ..a.pointer },
                            ..a
                        }
                        &&& b.terminals@ == a.terminals@.reordered(d as int, j as int)
                    } else {
                        b == a
                    },
                    None => b == a,
                }
            },
            None => r matches PointerStep::Terminal(s) && if a.pointer.to_program {
                &&& b == a
                &&& s == if a.terminals@.current() matches Some(t) && t.wants_motion {
                    a.report(col, row, 0, false, true)
                } else {
                    TermMouse::Nothing
                }
            } else {
                drags_terminal(a, col, row, s, b)
            },
        }
    } else {
        match a.pointer.tab_drag {
            Some(d) => {
                let under = first_tab(a.layout.tab_hits@, row, col, 0);
                &&& r is Nothing
                &&& if row < a.tab_rows() && (under matches Some(j) && j != d) {
                    moves_tabs(
                        App { pointer: Pointer { tab_drag: under, ..a.pointer }, ..a },
                        a.tabs@.reordered(d as int, under->0 as int),
                        d < a.tabs@.editors.len() && under->0 < a.tabs@.editors.len(),
                        b,
                    )
                } else {
                    b == a
                }
            },
            None => match r {
                PointerStep::Thumb(t) => drags_editor(a, col, row, Some(t), b),
                PointerStep::Nothing => drags_editor(a, col, row, None, b),
                _ => false,
            },
        }
    }
}

/// Whether a release makes `b` of `a` and leaves `r` to do.
pub open spec fn releases(a: App, col: u16, row: u16, r: PointerStep, b: App) -> bool {
    let m = App {
        pointer: Pointer {
            tab_drag: None,
            terminal_tab_drag: None,
            scrollbar_drag: None,
            ..a.pointer
        },
        ..a
    };
    if a.files_focused() {
        r matches PointerStep::Browse(s) && releases_list(m, col, row, s, b)
    } else if top_of(a.dialogs@) == Some(Dialog::Terminal) {
        if a.pointer.to_program {
            &&& b == App { pointer: Pointer { to_program: false, ..m.pointer }, ..m }
            &&& r == PointerStep::Terminal(a.report(col, row, 0, true, false))
        } else {
            &&& b == App {
                pointer: Pointer { selecting: false, selected_to: None, ..m.pointer },
                ..m
            }
            &&& r is Nothing
        }
    } else {
        &&& r is Nothing
        &&& b == App { tabs: b.tabs, ..m }
        &&& b.tabs@ == match a.shown() {
            Some(f) => a.tabs@.with_current(f.released()),
            None => a.tabs@,
        }
    }
}

/// Over the file dialog nothing reaches the text behind it: neither a press nor
/// a release changes the tabs.
pub proof fn law_the_dialog_keeps_the_mouse_from_the_text(
    a: App,
    col: u16,
    row: u16,
    shift: bool,
    alt: bool,
    r: PointerStep,
    b: App,
)
    requires
        a.files_focused(),
        presses(a, col, row, shift, alt, r, b) || releases(a, col, row, r, b),
    ensures
        b.tabs == a.tabs,
{
}

/// After a release no tab and no scrollbar is grabbed any more.
pub proof fn law_a_release_lets_go(a: App, col: u16, row: u16, r: PointerStep, b: App)
    requires
        releases(a, col, row, r, b),
    ensures
        b.pointer.tab_drag is None,
        b.pointer.terminal_tab_drag is None,
        b.pointer.scrollbar_drag is None,
{
}

} // verus!
