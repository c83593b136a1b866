//! The decisions of the window: when to paint, what an event means, which
//! pointer to show, and which key was pressed.

use crate::clock::{elapsed, since, terminal_repaint_due};
use crate::dialog::Dialog;
use crate::hits::{Pane, Rect, TabHit};
use crate::keyevent::{KeyCode, KeyEvent, KeyModifiers};
use crate::paths::{display_name, shown_name};
use crate::strings::chars_of;
use vstd::prelude::*;
use vstd::string::*;

verus! {

/// How often a window with nothing going on is painted at most, in
/// milliseconds.
pub const IDLE_REPAINT: u64 = 250;

/// How long a cell may go without being painted anew, in milliseconds.
pub const FULL_REDRAW: u64 = 1000;

/// How often the numbers of frames and bytes are noted, in milliseconds.
pub const HEARTBEAT: u64 = 5000;

/// How often the number of frames is sampled, in milliseconds.
pub const FPS_SAMPLE: u64 = 1000;

/// Whether to paint, and whether to paint once more after that.
#[derive(Debug, Clone, Copy, PartialEq, Eq, Structural)]
pub struct RenderDecision {
    pub should_render: bool,
    pub next_catchup_pending: bool,
}

/// Whether to paint. The caret is drawn where it was one frame before, so a
/// frame that something changed is followed by exactly one more.
pub fn render_decision(
    dirty: bool,
    catchup_pending: bool,
    terminal_due: bool,
    idle_elapsed: bool,
) -> (r: RenderDecision)
    ensures
        r.should_render == (dirty || catchup_pending || terminal_due || idle_elapsed),
        r.next_catchup_pending == dirty,
{
    let should_render = dirty || catchup_pending || terminal_due || idle_elapsed;
    let next_catchup_pending = if should_render {
        dirty
    } else {
        catchup_pending
    };
    RenderDecision { should_render, next_catchup_pending }
}

/// The title of the window.
pub fn window_title(root: Option<&str>) -> (r: String)
    ensures
        r@ == match root {
            Some(p) => "Oxru - "@ + display_name(p@),
            None => "Oxru"@,
        },
{
    match root {
        Some(p) => {
            let mut t = "Oxru - ".to_owned();
            let name = shown_name(p);
            t.append(name.as_str());
            t
        },
        None => "Oxru".to_owned(),
    }
}

/// The pointers that the window shows.
#[derive(Debug, Clone, Copy, PartialEq, Eq, Structural)]
pub enum CursorIcon {
    Default,
    /// A hand, over what can be clicked.
    Pointer,
    /// A beam, over text.
    Text,
}

/// What is on the screen, as far as the pointer depends on it.
pub struct Screen {
    pub dialogs: bool,
    pub top: Option<Dialog>,
    /// The rows of the file dialog.
    pub list: Option<Rect>,
    /// The tabs of the terminals.
    pub terminal_tabs: Option<Rect>,
    pub tabs: Vec<TabHit>,
    /// The parts of the path above the text, as columns from and to.
    pub crumbs: Vec<(u16, u16)>,
    pub panes: Vec<Pane>,
}

/// Whether a rectangle, where there is one, holds a cell.
pub open spec fn over(r: Option<Rect>, col: u16, row: u16) -> bool {
    r matches Some(a) && a.holds(col, row)
}

/// The pointer over the panes from `i` on.
pub open spec fn pane_icon(panes: Seq<Pane>, col: u16, row: u16, i: int) -> CursorIcon
    decreases panes.len() - i,
{
    if i >= panes.len() {
        CursorIcon::Default
    } else if panes[i].area.right_edge_holds(col, row) {
        CursorIcon::Pointer
    } else if panes[i].area.holds(col, row) {
        CursorIcon::Text
    } else {
        pane_icon(panes, col, row, i + 1)
    }
}

/// Whether a tab is under a cell of the first row.
pub open spec fn over_tab(tabs: Seq<TabHit>, col: u16, row: u16) -> bool {
    row == 0 && exists|i: int|
        0 <= i < tabs.len() && (#[trigger] tabs[i]).col_start <= col < tabs[i].col_end
}

/// Whether a part of the path is under a cell of the second row.
pub open spec fn over_crumb(crumbs: Seq<(u16, u16)>, col: u16, row: u16) -> bool {
    row == 1 && exists|i: int|
        0 <= i < crumbs.len() && (#[trigger] crumbs[i]).0 <= col < crumbs[i].1
}

impl Screen {
    /// The pointer for a cell.
    pub open spec fn icon_at(self, col: u16, row: u16) -> CursorIcon {
        if self.dialogs {
            if self.top == Some(Dialog::Files) && over(self.list, col, row) || self.top == Some(
                Dialog::Terminal,
            ) && over(self.terminal_tabs, col, row) {
                CursorIcon::Pointer
            } else {
                CursorIcon::Default
            }
        } else if over_tab(self.tabs@, col, row) || over_crumb(self.crumbs@, col, row) {
            CursorIcon::Pointer
        } else {
            pane_icon(self.panes@, col, row, 0)
        }
    }

    fn on_tab(&self, col: u16, row: u16) -> (r: bool)
        ensures
            r == over_tab(self.tabs@, col, row),
    {
        if row != 0 {
            return false;
        }
        let mut i: usize = 0;
        while i < self.tabs.len()
            invariant
                row == 0,
                i <= self.tabs@.len(),
                forall|k: int|
                    0 <= k < i ==> !((#[trigger] self.tabs@[k]).col_start <= col
                        < self.tabs@[k].col_end),
            decreases self.tabs.len() - i,
        {
            if col >= self.tabs[i].col_start && col < self.tabs[i].col_end {
                assert(self.tabs@[i as int].col_start <= col < self.tabs@[i as int].col_end);
                return true;
            }
            i = i + 1;
        }
        false
    }

    fn on_crumb(&self, col: u16, row: u16) -> (r: bool)
        ensures
            r == over_crumb(self.crumbs@, col, row),
    {
        if row != 1 {
            return false;
        }
        let mut i: usize = 0;
        while i < self.crumbs.len()
            invariant
                row == 1,
                i <= self.crumbs@.len(),
                forall|k: int|
                    0 <= k < i ==> !((#[trigger] self.crumbs@[k]).0 <= col < self.crumbs@[k].1),
            decreases self.crumbs.len() - i,
        {
            if col >= self.crumbs[i].0 && col < self.crumbs[i].1 {
                assert(self.crumbs@[i as int].0 <= col < self.crumbs@[i as int].1);
                return true;
            }
            i = i + 1;
        }
        false
    }

    /// The pointer for a cell: a beam over text, a hand over what can be
    /// clicked, and an arrow elsewhere.
    pub fn desired_cursor_icon(&self, col: u16, row: u16) -> (r: CursorIcon)
        ensures
            r == self.icon_at(col, row),
    {
        if self.dialogs {
            return match self.top {
                Some(Dialog::Files) => match self.list {
                    Some(a) if a.contains(col, row) => CursorIcon::Pointer,
                    _ => CursorIcon::Default,
                },
                Some(Dialog::Terminal) => match self.terminal_tabs {
                    Some(a) if a.contains(col, row) => CursorIcon::Pointer,
                    _ => CursorIcon::Default,
                },
                _ => CursorIcon::Default,
            };
        }
        if self.on_tab(col, row) || self.on_crumb(col, row) {
            return CursorIcon::Pointer;
        }
        let mut i: usize = 0;
        while i < self.panes.len()
            invariant
                i <= self.panes@.len(),
                self.icon_at(col, row) == pane_icon(self.panes@, col, row, 0),
                pane_icon(self.panes@, col, row, 0) == pane_icon(
                    self.panes@,
                    col,
                    row,
                    i as int,
                ),
            decreases self.panes.len() - i,
        {
            if self.panes[i].area.right_edge_contains(col, row) {
                return CursorIcon::Pointer;
            }
            if self.panes[i].area.contains(col, row) {
                return CursorIcon::Text;
            }
            i = i + 1;
        }
        CursorIcon::Default
    }
}

/// What happened to the window. A cell is that under the mouse, where it can be
/// told.
#[derive(Debug, Clone, Copy, PartialEq, Eq)]
pub enum WindowInput {
    CloseRequested,
    ModifiersChanged,
    Resized,
    ScaleFactorChanged,
    /// A key went down; none where it has no meaning.
    Key(Option<KeyEvent>),
    CursorMoved(Option<(u16, u16)>),
    LeftPressed(Option<(u16, u16)>),
    LeftReleased(Option<(u16, u16)>),
    /// The wheel turned by so many lines.
    Wheel { lines: i32, cell: Option<(u16, u16)> },
    DroppedFile,
    Focused(bool),
    Occluded(bool),
    RedrawRequested,
    Other,
}

/// What the front end does about it.
#[derive(Debug, Clone, Copy, PartialEq, Eq)]
pub enum WindowStep {
    Nothing,
    /// Ask whether to quit.
    AskQuit,
    NoteModifiers,
    /// Fit the surface to the window.
    Resize,
    /// Make the surface anew for the scale.
    Rebuild,
    Key(KeyEvent),
    Drag(Option<(u16, u16)>),
    /// The mouse is over a cell with no button held.
    Hover(u16, u16),
    MouseDown(Option<(u16, u16)>),
    MouseUp(u16, u16),
    Wheel { lines: i32, col: u16, row: u16 },
    OpenDropped,
    /// Hold the open files against the disk.
    RecheckFiles,
}

/// The state of the window between two frames.
#[derive(Debug, Clone, Copy)]
pub struct WindowLoop {
    /// Something changed that has to be painted.
    pub dirty: bool,
    /// The caret is one frame behind.
    pub catchup: bool,
    /// The next frame paints every cell.
    pub force_redraw: bool,
    pub left_pressed: bool,
    pub focused: bool,
    pub occluded: bool,
    pub last_render: u64,
    pub last_full: u64,
    /// When a frame was painted last, for the output of terminals.
    pub last_terminal: u64,
    pub last_beat: u64,
    pub frames: u64,
    pub sample_start: u64,
    pub sample_frames: u32,
}

/// What one turn of the loop does.
#[derive(Debug, Clone, Copy, PartialEq, Eq, Structural)]
pub struct Turn {
    /// Keep a selection that is held against an edge scrolling.
    pub drag: bool,
    pub render: bool,
    /// Paint every cell.
    pub full: bool,
}

/// A cell, or the first one.
pub open spec fn cell_or_first(c: Option<(u16, u16)>) -> (u16, u16) {
    match c {
        Some(p) => p,
        None => (0u16, 0u16),
    }
}

/// What the front end does about an event.
pub open spec fn step_for(left_pressed: bool, ev: WindowInput) -> WindowStep {
    match ev {
        WindowInput::CloseRequested => WindowStep::AskQuit,
        WindowInput::ModifiersChanged => WindowStep::NoteModifiers,
        WindowInput::Resized => WindowStep::Resize,
        WindowInput::ScaleFactorChanged => WindowStep::Rebuild,
        WindowInput::Key(Some(k)) => WindowStep::Key(k),
        WindowInput::CursorMoved(c) => if left_pressed {
            WindowStep::Drag(c)
        } else {
            match c {
                Some((col, row)) => WindowStep::Hover(col, row),
                None => WindowStep::Nothing,
            }
        },
        WindowInput::LeftPressed(c) => WindowStep::MouseDown(c),
        WindowInput::LeftReleased(c) => WindowStep::MouseUp(
            cell_or_first(c).0,
            cell_or_first(c).1,
        ),
        WindowInput::Wheel { lines, cell } => if lines != 0 {
            WindowStep::Wheel { lines, col: cell_or_first(cell).0, row: cell_or_first(cell).1 }
        } else {
            WindowStep::Nothing
        },
        WindowInput::DroppedFile => WindowStep::OpenDropped,
        WindowInput::Focused(true) => WindowStep::RecheckFiles,
        _ => WindowStep::Nothing,
    }
}

/// Whether an event changes what is on the screen.
pub open spec fn dirties(left_pressed: bool, ev: WindowInput) -> bool {
    match ev {
        WindowInput::CloseRequested | WindowInput::Resized => true,
        WindowInput::DroppedFile | WindowInput::RedrawRequested => true,
        WindowInput::Key(k) => k is Some,
        WindowInput::CursorMoved(_) => left_pressed,
        WindowInput::LeftPressed(_) | WindowInput::LeftReleased(_) => true,
        WindowInput::Wheel { lines, .. } => lines != 0,
        WindowInput::Focused(f) => f,
        WindowInput::Occluded(o) => !o,
        _ => false,
    }
}

impl WindowLoop {
    /// The state at the start.
    pub fn new(now: u64) -> (r: WindowLoop)
        ensures
            r == (WindowLoop {
                dirty: true,
                catchup: false,
                force_redraw: true,
                left_pressed: false,
                focused: true,
                occluded: false,
                last_render: now,
                last_full: now,
                last_terminal: now,
                last_beat: now,
                frames: 0,
                sample_start: now,
                sample_frames: 0,
            }),
    {
        WindowLoop {
            dirty: true,
            catchup: false,
            force_redraw: true,
            left_pressed: false,
            focused: true,
            occluded: false,
            last_render: now,
            last_full: now,
            last_terminal: now,
            last_beat: now,
            frames: 0,
            sample_start: now,
            sample_frames: 0,
        }
    }

    /// The state after an event.
    pub open spec fn after(self, ev: WindowInput) -> WindowLoop {
        let away = ev == WindowInput::Focused(false) || ev == WindowInput::Occluded(true);
        WindowLoop {
            dirty: self.dirty || dirties(self.left_pressed, ev),
            force_redraw: self.force_redraw || ev == WindowInput::Focused(true) || ev
                == WindowInput::Occluded(false) || ev == WindowInput::RedrawRequested,
            left_pressed: if ev is LeftPressed {
                true
            } else if ev is LeftReleased || away {
                false
            } else {
                self.left_pressed
            },
            focused: match ev {
                WindowInput::Focused(f) => f,
                _ => self.focused,
            },
            occluded: match ev {
                WindowInput::Occluded(o) => o,
                _ => self.occluded,
            },
            ..self
        }
    }

    /// Take an event in: flag what has to be painted, and say what to do. A
    /// button that is held counts as released when the window is left or
    /// hidden, since its release may never be reported.
    pub fn window_event(&mut self, ev: WindowInput) -> (r: WindowStep)
        ensures
            r == step_for(old(self).left_pressed, ev),
            *final(self) == old(self).after(ev),
    {
        match ev {
            // A question may come up.
            WindowInput::CloseRequested => {
                self.dirty = true;
                WindowStep::AskQuit
            },
            WindowInput::ModifiersChanged => WindowStep::NoteModifiers,
            WindowInput::Resized => {
                self.dirty = true;
                WindowStep::Resize
            },
            WindowInput::ScaleFactorChanged => WindowStep::Rebuild,
            WindowInput::Key(k) => match k {
                Some(key) => {
                    self.dirty = true;
                    WindowStep::Key(key)
                },
                None => WindowStep::Nothing,
            },
            WindowInput::CursorMoved(c) => {
                if self.left_pressed {
                    self.dirty = true;
                    WindowStep::Drag(c)
                } else {
                    match c {
                        Some((col, row)) => WindowStep::Hover(col, row),
                        None => WindowStep::Nothing,
                    }
                }
            },
            WindowInput::LeftPressed(c) => {
                self.left_pressed = true;
                self.dirty = true;
                WindowStep::MouseDown(c)
            },
            WindowInput::LeftReleased(c) => {
                self.left_pressed = false;
                self.dirty = true;
                let (col, row) = c.unwrap_or((0, 0));
                WindowStep::MouseUp(col, row)
            },
            WindowInput::Wheel { lines, cell } => {
                if lines != 0 {
                    self.dirty = true;
                    let (col, row) = cell.unwrap_or((0, 0));
                    WindowStep::Wheel { lines, col, row }
                } else {
                    WindowStep::Nothing
                }
            },
            WindowInput::DroppedFile => {
                self.dirty = true;
                WindowStep::OpenDropped
            },
            WindowInput::Focused(focused) => {
                self.focused = focused;
                if focused {
                    self.force_redraw = true;
                    self.dirty = true;
                    WindowStep::RecheckFiles
                } else {
                    self.left_pressed = false;
                    WindowStep::Nothing
                }
            },
            WindowInput::Occluded(occluded) => {
                self.occluded = occluded;
                if occluded {
                    self.left_pressed = false;
                } else {
                    self.force_redraw = true;
                    self.dirty = true;
                }
                WindowStep::Nothing
            },
            WindowInput::RedrawRequested => {
                self.force_redraw = true;
                self.dirty = true;
                WindowStep::Nothing
            },
            WindowInput::Other => WindowStep::Nothing,
        }
    }

    /// Whether a frame is due at `now`.
    pub open spec fn due(self, now: u64, pumped: bool, interval: u64) -> bool {
        let idle = if interval > IDLE_REPAINT {
            interval
        } else {
            IDLE_REPAINT
        };
        self.dirty || self.left_pressed || self.catchup || (pumped && elapsed(
            now,
            self.last_terminal,
        ) >= interval) || elapsed(now, self.last_render) >= idle
    }

    /// The state after a turn at `now`.
    pub open spec fn turned(self, now: u64, pumped: bool, interval: u64) -> WindowLoop {
        let render = self.due(now, pumped, interval);
        let full = render && (self.force_redraw || elapsed(now, self.last_full) >= FULL_REDRAW);
        WindowLoop {
            dirty: false,
            catchup: self.dirty || self.left_pressed,
            force_redraw: self.force_redraw && !full,
            last_render: if render {
                now
            } else {
                self.last_render
            },
            last_full: if full {
                now
            } else {
                self.last_full
            },
            last_terminal: if render {
                now
            } else {
                self.last_terminal
            },
            frames: if render && self.frames < u64::MAX {
                (self.frames + 1) as u64
            } else {
                self.frames
            },
            sample_frames: if render && self.sample_frames < u32::MAX {
                (self.sample_frames + 1) as u32
            } else {
                self.sample_frames
            },
            ..self
        }
    }

    /// One turn of the loop: whether to paint, and whether to paint every cell.
    /// `pumped` says whether terminals have new output, and `interval` is the
    /// time between two unattended frames.
    pub fn tick(&mut self, now: u64, pumped: bool, interval: u64) -> (r: Turn)
        ensures
            r == (Turn {
                drag: old(self).left_pressed,
                render: old(self).due(now, pumped, interval),
                full: old(self).due(now, pumped, interval) && (old(self).force_redraw || elapsed(
                    now,
                    old(self).last_full,
                ) >= FULL_REDRAW),
            }),
            *final(self) == old(self).turned(now, pumped, interval),
    {
        let drag = self.left_pressed;
        if drag {
            self.dirty = true;
        }
        let idle_interval: u64 = if interval > IDLE_REPAINT {
            interval
        } else {
            IDLE_REPAINT
        };
        let idle_elapsed = since(now, self.last_render) >= idle_interval;
        let terminal_due = terminal_repaint_due(pumped, now, self.last_terminal, interval);
        let decision = render_decision(self.dirty, self.catchup, terminal_due, idle_elapsed);
        self.dirty = false;
        self.catchup = decision.next_catchup_pending;
        let mut full = false;
        if decision.should_render {
            full = self.force_redraw || since(now, self.last_full) >= FULL_REDRAW;
            if full {
                self.force_redraw = false;
                self.last_full = now;
            }
            self.last_render = now;
            self.last_terminal = now;
            if self.frames < u64::MAX {
                self.frames = self.frames + 1;
            }
            if self.sample_frames < u32::MAX {
                self.sample_frames = self.sample_frames + 1;
            }
        }
        Turn { drag, render: decision.should_render, full }
    }

    /// The frames since the last note, where a note is due; counting starts
    /// over then.
    pub fn beat(&mut self, now: u64) -> (r: Option<u64>)
        ensures
            r == if elapsed(now, old(self).last_beat) >= HEARTBEAT {
                Some(old(self).frames)
            } else {
                None
            },
            *final(self) == if r is Some {
                WindowLoop { frames: 0, last_beat: now, ..*old(self) }
            } else {
                *old(self)
            },
    {
        if since(now, self.last_beat) < HEARTBEAT {
            return None;
        }
        let n: u64 = self.frames;
        self.frames = 0;
        self.last_beat = now;
        Some(n)
    }

    /// The frames and the milliseconds since the last sample, where one is due;
    /// counting starts over then.
    pub fn sample_fps(&mut self, now: u64) -> (r: Option<(u32, u64)>)
        ensures
            match r {
                Some((n, ms)) => elapsed(now, old(self).sample_start) >= FPS_SAMPLE && n == old(
                    self,
                ).sample_frames && ms == elapsed(now, old(self).sample_start) && *final(self)
                    == (WindowLoop { sample_frames: 0, sample_start: now, ..*old(self) }),
                None => elapsed(now, old(self).sample_start) < FPS_SAMPLE && *final(self) == *old(
                    self,
                ),
            },
    {
        let ms: u64 = since(now, self.sample_start);
        if ms < FPS_SAMPLE {
            return None;
        }
        let n: u32 = self.sample_frames;
        self.sample_frames = 0;
        self.sample_start = now;
        Some((n, ms))
    }
}

/// A change is painted in the next turn, and the turn after that paints once
/// more so that the caret catches up; then, with nothing due, nothing is
/// painted.
pub proof fn law_a_change_is_painted_twice(w: WindowLoop, t1: u64, t2: u64, t3: u64, interval: u64)
    requires
        w.dirty,
        !w.left_pressed,
        t1 <= t2 <= t3,
        t3 - t2 < IDLE_REPAINT,
    ensures
        w.due(t1, false, interval),
        w.turned(t1, false, interval).due(t2, false, interval),
        !w.turned(t1, false, interval).turned(t2, false, interval).due(t3, false, interval),
{
}

/// No button is held once the window is left or hidden.
pub proof fn law_leaving_releases_the_button(w: WindowLoop)
    ensures
        !w.after(WindowInput::Focused(false)).left_pressed,
        !w.after(WindowInput::Occluded(true)).left_pressed,
{
}

/// No cell goes longer without being painted anew than the bound, as long as
/// the loop turns.
pub proof fn law_cells_do_not_stay_stale(w: WindowLoop, now: u64, pumped: bool, interval: u64)
    requires
        elapsed(now, w.last_full) >= FULL_REDRAW,
        w.due(now, pumped, interval),
    ensures
        w.turned(now, pumped, interval).last_full == now,
{
}

/// Where a key lies on the keyboard, with the names of a US one.
#[derive(Debug, Clone, Copy, PartialEq, Eq, Structural)]
pub enum PhysKey {
    /// The letter with this number, counting from 0.
    Letter(u8),
    /// The digit.
    Digit(u8),
    Comma,
    Other,
}

/// The character of a key on a US keyboard.
pub open spec fn us_char(k: PhysKey) -> Option<char> {
    match k {
        PhysKey::Letter(n) => if n < 26 {
            Some(('a' as int + n) as char)
        } else {
            None
        },
        PhysKey::Digit(n) => if n < 10 {
            Some(('0' as int + n) as char)
        } else {
            None
        },
        PhysKey::Comma => Some(','),
        PhysKey::Other => None,
    }
}

/// The character of a key on a US keyboard.
pub fn physical_char(k: PhysKey) -> (r: Option<char>)
    ensures
        r == us_char(k),
{
    match k {
        PhysKey::Letter(n) => if n < 26 {
            Some((0x61u8 + n) as char)
        } else {
            None
        },
        PhysKey::Digit(n) => if n < 10 {
            Some((0x30u8 + n) as char)
        } else {
            None
        },
        PhysKey::Comma => Some(','),
        PhysKey::Other => None,
    }
}

/// What the keyboard's layout makes of a key.
#[derive(Debug)]
pub enum LogicalKey {
    Enter,
    Backspace,
    Delete,
    Escape,
    Tab,
    Space,
    ArrowUp,
    ArrowDown,
    ArrowLeft,
    ArrowRight,
    Home,
    End,
    PageUp,
    PageDown,
    Function(u8),
    /// The text that it types.
    Text(String),
    Other,
}

/// The key that the layout makes.
pub open spec fn logical_code(k: LogicalKey) -> Option<KeyCode> {
    match k {
        LogicalKey::Enter => Some(KeyCode::Enter),
        LogicalKey::Backspace => Some(KeyCode::Backspace),
        LogicalKey::Delete => Some(KeyCode::Delete),
        LogicalKey::Escape => Some(KeyCode::Esc),
        LogicalKey::Tab => Some(KeyCode::Tab),
        LogicalKey::Space => Some(KeyCode::Char(' ')),
        LogicalKey::ArrowUp => Some(KeyCode::Up),
        LogicalKey::ArrowDown => Some(KeyCode::Down),
        LogicalKey::ArrowLeft => Some(KeyCode::Left),
        LogicalKey::ArrowRight => Some(KeyCode::Right),
        LogicalKey::Home => Some(KeyCode::Home),
        LogicalKey::End => Some(KeyCode::End),
        LogicalKey::PageUp => Some(KeyCode::PageUp),
        LogicalKey::PageDown => Some(KeyCode::PageDown),
        LogicalKey::Function(n) => if 1 <= n <= 12 {
            Some(KeyCode::F(n))
        } else {
            None
        },
        LogicalKey::Text(s) => if s@.len() > 0 {
            Some(KeyCode::Char(s@[0]))
        } else {
            None
        },
        LogicalKey::Other => None,
    }
}

/// The key press that the window reports. With Alt or Command held, the layout
/// may make another character, so that the place of the key counts.
pub fn translate_key(logical: &LogicalKey, physical: PhysKey, mods: KeyModifiers) -> (r: Option<
    KeyEvent,
>)
    ensures
        r == if (mods.alt || mods.sup) && us_char(physical) is Some {
            Some(KeyEvent { code: KeyCode::Char(us_char(physical)->0), modifiers: mods })
        } else {
            match logical_code(*logical) {
                Some(code) => Some(KeyEvent { code, modifiers: mods }),
                None => None,
            }
        },
{
    if mods.alt || mods.sup {
        if let Some(c) = physical_char(physical) {
            return Some(KeyEvent::new(KeyCode::Char(c), mods));
        }
    }
    let code = match logical {
        LogicalKey::Enter => KeyCode::Enter,
        LogicalKey::Backspace => KeyCode::Backspace,
        LogicalKey::Delete => KeyCode::Delete,
        LogicalKey::Escape => KeyCode::Esc,
        LogicalKey::Tab => KeyCode::Tab,
        LogicalKey::Space => KeyCode::Char(' '),
        LogicalKey::ArrowUp => KeyCode::Up,
        LogicalKey::ArrowDown => KeyCode::Down,
        LogicalKey::ArrowLeft => KeyCode::Left,
        LogicalKey::ArrowRight => KeyCode::Right,
        LogicalKey::Home => KeyCode::Home,
        LogicalKey::End => KeyCode::End,
        LogicalKey::PageUp => KeyCode::PageUp,
        LogicalKey::PageDown => KeyCode::PageDown,
        LogicalKey::Function(n) => {
            if *n < 1 || *n > 12 {
                return None;
            }
            KeyCode::F(*n)
        },
        LogicalKey::Text(s) => {
            let v = chars_of(s.as_str());
            if v.len() == 0 {
                return None;
            }
            KeyCode::Char(v[0])
        },
        LogicalKey::Other => return None,
    };
    Some(KeyEvent::new(code, mods))
}

/// The keys of a window are those of a terminal: the arrows, Enter and the like are
/// what they are called, the function keys go from 1 to 12, and a text key types its
/// first character.
pub proof fn law_window_keys_are_what_they_are_called(n: u8, s: String)
    ensures
        logical_code(LogicalKey::Enter) == Some(KeyCode::Enter),
        logical_code(LogicalKey::Backspace) == Some(KeyCode::Backspace),
        logical_code(LogicalKey::Delete) == Some(KeyCode::Delete),
        logical_code(LogicalKey::Escape) == Some(KeyCode::Esc),
        logical_code(LogicalKey::Tab) == Some(KeyCode::Tab),
        logical_code(LogicalKey::Space) == Some(KeyCode::Char(' ')),
        logical_code(LogicalKey::ArrowUp) == Some(KeyCode::Up),
        logical_code(LogicalKey::ArrowDown) == Some(KeyCode::Down),
        logical_code(LogicalKey::ArrowLeft) == Some(KeyCode::Left),
        logical_code(LogicalKey::ArrowRight) == Some(KeyCode::Right),
        logical_code(LogicalKey::Home) == Some(KeyCode::Home),
        logical_code(LogicalKey::End) == Some(KeyCode::End),
        logical_code(LogicalKey::PageUp) == Some(KeyCode::PageUp),
        logical_code(LogicalKey::PageDown) == Some(KeyCode::PageDown),
        1 <= n <= 12 ==> logical_code(LogicalKey::Function(n)) == Some(KeyCode::F(n)),
        s@.len() > 0 ==> logical_code(LogicalKey::Text(s)) == Some(KeyCode::Char(s@[0])),
        n < 26 ==> us_char(PhysKey::Letter(n)) == Some((97 + n) as char),
        n < 10 ==> us_char(PhysKey::Digit(n)) == Some((48 + n) as char),
{
}

/// The mouse of a window: a press goes down at its cell and a release comes up, a
/// movement drags while the left button is held and hovers else, and the wheel
/// scrolls by its lines. A close request asks to quit, and a file that is dropped is
/// opened.
pub proof fn law_window_events_ask_for_their_steps(
    held: bool,
    cell: (u16, u16),
    key: KeyEvent,
    lines: i32,
)
    requires
        lines != 0,
    ensures
        step_for(held, WindowInput::CloseRequested) == WindowStep::AskQuit,
        step_for(held, WindowInput::Key(Some(key))) == WindowStep::Key(key),
        step_for(held, WindowInput::LeftPressed(Some(cell))) == WindowStep::MouseDown(Some(cell)),
        step_for(held, WindowInput::LeftReleased(Some(cell))) == WindowStep::MouseUp(
            cell.0,
            cell.1,
        ),
        step_for(true, WindowInput::CursorMoved(Some(cell))) == WindowStep::Drag(Some(cell)),
        step_for(false, WindowInput::CursorMoved(Some(cell))) == WindowStep::Hover(cell.0, cell.1),
        step_for(held, WindowInput::Wheel { lines, cell: Some(cell) }) == (WindowStep::Wheel {
            lines,
            col: cell.0,
            row: cell.1,
        }),
        step_for(held, WindowInput::DroppedFile) == WindowStep::OpenDropped,
        step_for(held, WindowInput::Focused(true)) == WindowStep::RecheckFiles,
        step_for(held, WindowInput::Resized) == WindowStep::Resize,
{
}

/// The left button is held from a press to the release, and whatever happens between
/// but leaving the window keeps it so. What is on the screen is painted anew after a
/// key, a press, a release, a drag, a turn of the wheel and a close request.
pub proof fn law_what_happens_is_painted(w: WindowLoop, ev: WindowInput, now: u64, interval: u64)
    ensures
        ev is LeftPressed ==> w.after(ev).left_pressed,
        ev is LeftReleased ==> !w.after(ev).left_pressed,
        ev is Key || ev is CursorMoved || ev is Wheel ==> w.after(ev).left_pressed
            == w.left_pressed,
        ev is LeftPressed || ev is LeftReleased || ev is CloseRequested || ev is DroppedFile
            || ev is Resized || (ev matches WindowInput::Key(Some(_))) ==> w.after(ev).dirty
            && w.after(ev).due(now, false, interval),
        w.left_pressed && ev is CursorMoved ==> w.after(ev).dirty,
        w.dirty ==> w.after(ev).dirty,
        ev matches WindowInput::Focused(f) ==> w.after(ev).focused == f,
        ev matches WindowInput::Occluded(o) ==> w.after(ev).occluded == o,
{
}

/// Without a change a frame comes a quarter of a second after the last one, or at
/// the chosen interval where that is longer; output of a terminal is painted at the
/// chosen interval.
pub proof fn law_an_idle_window_paints_rarely(w: WindowLoop, now: u64, pumped: bool, interval: u64)
    requires
        !w.dirty,
        !w.left_pressed,
        !w.catchup,
        now >= w.last_render,
        now >= w.last_terminal,
    ensures
        w.due(now, pumped, interval) == ((now - w.last_render >= 250 && now - w.last_render
            >= interval) || (pumped && now - w.last_terminal >= interval)),
        w.due(now, pumped, interval) ==> w.turned(now, pumped, interval).last_render == now,
        !w.due(now, pumped, interval) ==> w.turned(now, pumped, interval).last_render
            == w.last_render,
{
}

} // verus!
