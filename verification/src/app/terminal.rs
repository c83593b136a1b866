//! The terminals: opening and closing them, switching between them, and what
//! the mouse does in them.

use crate::app::{App, Pointer};
use crate::buffer::opt_text;
use crate::dialog::{dismissed, raised, top_of, Dialog};
use crate::editline::char_len;
use crate::filedialog::{all_searchable, can_score_all};
use crate::requests::{short_term_title, title_of};
use crate::strings::{chars_of, text_of};
use crate::terminals::{
    labels_of, picker_lists, Terminal, TerminalState, TerminalsState, MAX_TERMINALS,
};
use crate::text::{decimal, trim, trim_text, with_number};
use crate::toast::ToastKind;
use vstd::prelude::*;
use vstd::string::*;

verus! {

/// What came of starting a shell.
pub enum Spawn {
    Started { terminal: Terminal, cwd: String },
    Failed(String),
}

/// What the mouse asks of the terminal that is showing.
#[derive(Debug, Clone, Copy, PartialEq, Eq, Structural)]
pub enum TermMouse {
    Nothing,
    /// Tell the program of a button.
    Report { button: u8, col: u16, row: u16, release: bool },
    /// Tell the program of the wheel so many times.
    Wheel { button: u8, col: u16, row: u16, times: u8 },
    /// Send an arrow key so many times.
    Arrows { up: bool, times: u8 },
    /// Scroll by so many lines.
    Scroll(i32),
    /// Start a selection.
    Begin { row: u16, col: u16 },
    SelectWord { row: u16, col: u16 },
    SelectLine { row: u16 },
    /// Move the end of the selection.
    Extend { row: u16, col: u16 },
    Update { row: u16, col: u16 },
    /// Drop the selection.
    Clear,
}

/// The notice where no more terminals can be opened.
pub open spec fn too_many() -> Seq<char> {
    "Too many terminals open (max "@ + decimal(MAX_TERMINALS as nat)
        + ") \u{2014} close some first"@
}

/// Whether `b` is `a` after the terminal `t` was opened in `cwd`.
pub open spec fn starts(a: App, t: TerminalState, cwd: Seq<char>, b: App) -> bool {
    &&& b == App {
        dialogs: b.dialogs,
        terminals: b.terminals,
        last_terminal_cwd: b.last_terminal_cwd,
        ..a
    }
    &&& opt_text(b.last_terminal_cwd) == Some(cwd)
    &&& b.terminals@ == a.terminals@.spawned(t)
    &&& b.dialogs@ == if top_of(a.dialogs@) == Some(Dialog::Terminal) {
        a.dialogs@
    } else {
        raised(a.dialogs@, Dialog::Terminal)
    }
}

impl App {
    /// Whether another terminal may be opened.
    pub fn can_spawn(&self) -> (r: bool)
        ensures
            r == (self.terminals@.list.len() < MAX_TERMINALS),
    {
        self.terminals.list.len() < MAX_TERMINALS
    }

    /// Open a terminal beside the one that is showing, and give it the focus.
    /// There are never more than a bound, since each is a shell of its own.
    pub fn new_terminal(&mut self, spawn: Spawn)
        requires
            old(self).wf(),
        ensures
            if old(self).terminals@.list.len() >= MAX_TERMINALS {
                &&& *final(self) == (App { toast: final(self).toast, ..*old(self) })
                &&& final(self).tells(too_many(), ToastKind::Error)
            } else {
                match spawn {
                    Spawn::Started { terminal, cwd } => starts(
                        *old(self),
                        terminal@,
                        cwd@,
                        *final(self),
                    ),
                    Spawn::Failed(e) => {
                        &&& *final(self) == (App { status: final(self).status, ..*old(self) })
                        &&& final(self).status@ == "Failed to spawn terminal: "@ + e@
                    },
                }
            },
            final(self).wf(),
    {
        if self.terminals.list.len() >= MAX_TERMINALS {
            let m = with_number(
                "Too many terminals open (max ",
                MAX_TERMINALS,
                ") \u{2014} close some first",
            );
            self.notify(m, ToastKind::Error);
            return;
        }
        match spawn {
            Spawn::Started { terminal, cwd } => {
                self.last_terminal_cwd = Some(cwd);
                self.terminals.new_terminal(terminal);
                if !self.terminal_focused() {
                    let ghost t = self.terminals@;
                    self.open_dialog(Dialog::Terminal);
                    assert(self.terminals@ == t);
                }
            },
            Spawn::Failed(e) => {
                let mut m = "Failed to spawn terminal: ".to_owned();
                m.append(e.as_str());
                self.status = m;
            },
        }
    }

    /// Open a terminal that runs `cmd`, and say what is to be sent to it.
    pub fn open_terminal_with_command(&mut self, cmd: &str, spawn: Spawn) -> (r: Option<String>)
        requires
            old(self).wf(),
        ensures
            match spawn {
                Spawn::Started { terminal, cwd } => if old(self).terminals@.list.len()
                    < MAX_TERMINALS {
                    &&& opt_text(r) == Some(cmd@.push('\n'))
                    &&& starts(
                        App { toast: final(self).toast, ..*old(self) },
                        TerminalState { name: title_of(cmd@), ..terminal@ },
                        cwd@,
                        *final(self),
                    )
                    &&& final(self).tells("Opened embedded terminal"@, ToastKind::Info)
                } else {
                    &&& r is None
                    &&& *final(self) == (App { toast: final(self).toast, ..*old(self) })
                    &&& final(self).tells(too_many(), ToastKind::Error)
                },
                Spawn::Failed(e) => {
                    &&& r is None
                    &&& if old(self).terminals@.list.len() < MAX_TERMINALS {
                        &&& *final(self) == (App { status: final(self).status, ..*old(self) })
                        &&& final(self).status@ == "Failed to spawn terminal: "@ + e@
                    } else {
                        &&& *final(self) == (App { toast: final(self).toast, ..*old(self) })
                        &&& final(self).tells(too_many(), ToastKind::Error)
                    }
                },
            },
            final(self).wf(),
    {
        match spawn {
            Spawn::Started { terminal, cwd } => {
                let mut t = terminal;
                t.name = short_term_title(cmd);
                let full = !self.can_spawn();
                self.new_terminal(Spawn::Started { terminal: t, cwd });
                if full {
                    return None;
                }
                self.notify("Opened embedded terminal".to_owned(), ToastKind::Info);
                let mut line = cmd.to_owned();
                line.push('\n');
                Some(line)
            },
            Spawn::Failed(e) => {
                self.new_terminal(Spawn::Failed(e));
                None
            },
        }
    }

    /// Close the terminal that is showing. With the last one the dialog closes.
    pub fn close_terminal(&mut self)
        requires
            old(self).wf(),
        ensures
            closes_terminal(*old(self), *final(self)),
            final(self).wf(),
    {
        if self.terminals.close_terminal() {
            self.dismiss_dialog(Dialog::Terminal);
        }
    }

    /// Show the terminal that the switcher has selected, and close the
    /// switcher.
    pub fn terminal_picker_confirm(&mut self)
        requires
            old(self).wf(),
        ensures
            picks_terminal(*old(self), *final(self)),
            final(self).wf(),
    {
        if let Some(i) = self.picker.picked_terminal() {
            if i < self.terminals.list.len() {
                self.terminals.active = i;
            }
        }
        self.dismiss_dialog(Dialog::TerminalPicker);
    }

    /// List the terminals that match the switcher's query.
    fn refill_picker(&mut self)
        requires
            old(self).wf(),
            all_searchable(labels_of(old(self).terminals@.names()), old(self).picker.query@),
        ensures
            *final(self) == (App { picker: final(self).picker, ..*old(self) }),
            final(self).picker.query == old(self).picker.query,
            picker_lists(
                final(self).picker.matches@,
                labels_of(old(self).terminals@.names()),
                old(self).picker.query@,
            ),
            final(self).picker.selected == 0,
            final(self).wf(),
    {
        let labels = self.terminals.terminal_labels();
        self.picker.terminal_picker_refilter(&labels);
    }

    /// Type into the switcher.
    pub fn terminal_picker_input(&mut self, c: char)
        requires
            old(self).wf(),
            all_searchable(
                labels_of(old(self).terminals@.names()),
                old(self).picker.query@.push(c),
            ),
        ensures
            asks_picker(*old(self), old(self).picker.query@.push(c), *final(self)),
            final(self).wf(),
    {
        self.picker.query.push(c);
        self.refill_picker();
    }

    /// Delete from the switcher's query.
    pub fn terminal_picker_backspace(&mut self)
        requires
            old(self).wf(),
            all_searchable(labels_of(old(self).terminals@.names()), shortened(
                old(self).picker.query@,
            )),
        ensures
            asks_picker(*old(self), shortened(old(self).picker.query@), *final(self)),
            final(self).wf(),
    {
        self.picker.query = self.shortened_query();
        self.refill_picker();
    }

    /// The query of the picker without its last character.
    pub(crate) fn shortened_query(&self) -> (r: String)
        ensures
            r@ == shortened(self.picker.query@),
    {
        let v = chars_of(self.picker.query.as_str());
        let n: usize = v.len();
        if n > 0 {
            let s = text_of(&v, 0, n - 1);
            assert(s@ =~= v@.drop_last());
            s
        } else {
            self.picker.query.clone()
        }
    }

    /// Whether a query can be held against the names of the terminals.
    pub fn picker_takes(&self, query: &str) -> (r: bool)
        ensures
            r == all_searchable(labels_of(self.terminals@.names()), query@),
    {
        let labels = self.terminal_labels();
        can_score_all(query, &labels)
    }

    /// Put the focused terminal into copy mode, with a cursor of its own.
    pub fn terminal_enter_copy_mode(&mut self)
        requires
            old(self).wf(),
        ensures
            *final(self) == (App { terminals: final(self).terminals, ..*old(self) }),
            final(self).terminals@ == old(self).terminals@.with_copy_mode(true),
            final(self).wf(),
    {
        self.terminals.set_copy_mode(true);
    }

    /// Take the focused terminal out of copy mode.
    pub fn terminal_exit_copy_mode(&mut self)
        requires
            old(self).wf(),
        ensures
            *final(self) == (App { terminals: final(self).terminals, ..*old(self) }),
            final(self).terminals@ == old(self).terminals@.with_copy_mode(false),
            final(self).wf(),
    {
        self.terminals.set_copy_mode(false);
    }

    /// Copy what is selected in copy mode, and leave it.
    pub fn terminal_copy_and_exit(&mut self, text: Option<String>)
        requires
            old(self).wf(),
        ensures
            copies_terminal(
                App { terminals: final(self).terminals, ..*old(self) },
                text,
                *final(self),
            ),
            final(self).terminals@ == old(self).terminals@.with_copy_mode(false),
            final(self).wf(),
    {
        self.copy_terminal_selection(text);
        self.terminals.set_copy_mode(false);
    }

    /// Copy what is selected in the terminal, unless it is blank.
    pub fn copy_terminal_selection(&mut self, text: Option<String>)
        requires
            old(self).wf(),
        ensures
            copies_terminal(*old(self), text, *final(self)),
            final(self).wf(),
    {
        if let Some(t) = text {
            let bare = trim(t.as_str());
            if char_len(bare.as_str()) > 0 {
                let n: usize = char_len(t.as_str());
                self.set_clipboard(t);
                self.notify(with_number("Copied ", n, " chars"), ToastKind::Success);
            }
        }
    }

    /// What is to be pasted into the terminal that is showing.
    pub fn paste_terminal(&self, system: Option<String>) -> (r: Option<String>)
        requires
            self.wf(),
        ensures
            opt_text(r) == if self.clip(system).len() > 0 && self.terminals@.current() is Some {
                Some(self.clip(system))
            } else {
                None
            },
    {
        let text = self.get_clipboard(system);
        if char_len(text.as_str()) == 0 || self.terminals.list.len() == 0 {
            None
        } else {
            Some(text)
        }
    }

    /// How the program in the terminal is told of a button: `button` is 0 for
    /// the left one, and `motion` says that the mouse moved with it held.
    pub open spec fn report(
        self,
        col: u16,
        row: u16,
        button: u8,
        release: bool,
        motion: bool,
    ) -> TermMouse {
        match self.layout.terminal_view {
            Some(v) => if self.terminals@.current() is Some {
                TermMouse::Report {
                    button: if motion {
                        button | 32
                    } else {
                        button
                    },
                    col: v.nearest(col, row).1 as u16,
                    row: v.nearest(col, row).0 as u16,
                    release,
                }
            } else {
                TermMouse::Nothing
            },
            None => TermMouse::Nothing,
        }
    }

    fn terminal_report(&self, col: u16, row: u16, button: u8, release: bool, motion: bool) -> (r:
        TermMouse)
        requires
            self.wf(),
        ensures
            r == self.report(col, row, button, release, motion),
    {
        match self.layout.terminal_view {
            Some(v) => if self.terminals.list.len() > 0 {
                let (rr, cc) = v.clamp_cell(col, row);
                TermMouse::Report {
                    button: if motion {
                        button | 32
                    } else {
                        button
                    },
                    col: cc,
                    row: rr,
                    release,
                }
            } else {
                TermMouse::Nothing
            },
            None => TermMouse::Nothing,
        }
    }

    /// Tell the program of a press.
    pub fn terminal_mouse_down_report(&self, col: u16, row: u16) -> (r: TermMouse)
        requires
            self.wf(),
        ensures
            r == self.report(col, row, 0, false, false),
    {
        self.terminal_report(col, row, 0, false, false)
    }

    /// Tell the program of a movement with the button held, where it wants to
    /// hear of that.
    pub fn terminal_mouse_drag_report(&self, col: u16, row: u16) -> (r: TermMouse)
        requires
            self.wf(),
        ensures
            r == if self.terminals@.current() matches Some(t) && t.wants_motion {
                self.report(col, row, 0, false, true)
            } else {
                TermMouse::Nothing
            },
    {
        if self.terminals.list.len() > 0 {
            let i: usize = self.terminals.active;
            assert(self.terminals@.list[i as int] == self.terminals.list@[i as int]@);
            if self.terminals.list[i].wants_motion {
                return self.terminal_report(col, row, 0, false, true);
            }
        }
        TermMouse::Nothing
    }

    /// Tell the program of a release.
    pub fn terminal_mouse_up_report(&self, col: u16, row: u16) -> (r: TermMouse)
        requires
            self.wf(),
        ensures
            r == self.report(col, row, 0, true, false),
    {
        self.terminal_report(col, row, 0, true, false)
    }

    /// What the wheel does in the terminal: a program that wants the mouse is
    /// told, a full-screen program gets arrow keys, and else the view scrolls.
    /// Shift always scrolls the view.
    pub open spec fn wheel(self, lines: i32, col: u16, row: u16, shift: bool) -> TermMouse {
        let n = if lines < -10 || lines > 10 {
            10
        } else if lines < 0 {
            -lines
        } else {
            lines as int
        };
        let t = self.terminals@.current();
        if lines == 0 || t is None {
            TermMouse::Nothing
        } else if !shift && t->0.wants_mouse {
            match self.report(
                col,
                row,
                if lines > 0 {
                    64
                } else {
                    65
                },
                false,
                false,
            ) {
                TermMouse::Report { button, col, row, .. } => TermMouse::Wheel {
                    button,
                    col,
                    row,
                    times: n as u8,
                },
                _ => TermMouse::Nothing,
            }
        } else if !shift && t->0.alternate_screen {
            TermMouse::Arrows { up: lines > 0, times: n as u8 }
        } else {
            TermMouse::Scroll(lines)
        }
    }

    /// What the wheel does in the terminal.
    pub fn terminal_wheel(&self, lines: i32, col: u16, row: u16, shift: bool) -> (r: TermMouse)
        requires
            self.wf(),
        ensures
            r == self.wheel(lines, col, row, shift),
    {
        if lines == 0 || self.terminals.list.len() == 0 {
            return TermMouse::Nothing;
        }
        let n: u8 = if lines < -10 || lines > 10 {
            10
        } else if lines < 0 {
            (0 - lines) as u8
        } else {
            lines as u8
        };
        let i: usize = self.terminals.active;
        assert(self.terminals@.list[i as int] == self.terminals.list@[i as int]@);
        if !shift && self.terminals.list[i].wants_mouse {
            let button: u8 = if lines > 0 {
                64
            } else {
                65
            };
            return match self.terminal_report(col, row, button, false, false) {
                TermMouse::Report { button, col, row, release: _ } => TermMouse::Wheel {
                    button,
                    col,
                    row,
                    times: n,
                },
                _ => TermMouse::Nothing,
            };
        }
        if !shift && self.terminals.list[i].alternate_screen {
            return TermMouse::Arrows { up: lines > 0, times: n };
        }
        TermMouse::Scroll(lines)
    }

    /// Start selecting at a cell: two quick clicks take the word, three the
    /// line. A press beside the text drops the selection.
    pub fn terminal_mouse_down(&mut self, col: u16, row: u16) -> (r: TermMouse)
        requires
            old(self).wf(),
        ensures
            presses_terminal(*old(self), col, row, r, *final(self)),
            final(self).wf(),
    {
        let clicks: u8 = self.pointer.clicks.count;
        let cell = match self.layout.terminal_view {
            Some(v) => v.local(col, row),
            None => None,
        };
        match cell {
            Some((r, c)) => {
                self.pointer.selecting = true;
                if self.terminals.list.len() == 0 {
                    TermMouse::Nothing
                } else if clicks == 2 {
                    TermMouse::SelectWord { row: r, col: c }
                } else if clicks >= 3 {
                    TermMouse::SelectLine { row: r }
                } else {
                    TermMouse::Begin { row: r, col: c }
                }
            },
            None => if self.terminals.list.len() == 0 {
                TermMouse::Nothing
            } else {
                TermMouse::Clear
            },
        }
    }

    /// Move the end of the selection to a cell, keeping where it started.
    pub fn terminal_mouse_extend(&mut self, col: u16, row: u16) -> (r: TermMouse)
        requires
            old(self).wf(),
        ensures
            extends_terminal(*old(self), col, row, r, *final(self)),
            final(self).wf(),
    {
        let cell = match self.layout.terminal_view {
            Some(v) => v.local(col, row),
            None => None,
        };
        match cell {
            Some((r, c)) => {
                self.pointer.selecting = true;
                self.pointer.selected_to = Some((r, c));
                if self.terminals.list.len() == 0 {
                    TermMouse::Nothing
                } else {
                    TermMouse::Extend { row: r, col: c }
                }
            },
            None => TermMouse::Nothing,
        }
    }

    /// Select up to a cell while the button is held. Quick clicks that did not
    /// leave their cell keep what they took.
    pub fn terminal_mouse_drag(&mut self, col: u16, row: u16) -> (r: TermMouse)
        requires
            old(self).wf(),
        ensures
            drags_terminal(*old(self), col, row, r, *final(self)),
            final(self).wf(),
    {
        if !self.pointer.selecting || self.pointer.clicks.click_stayed_on_press_cell(col, row) {
            return TermMouse::Nothing;
        }
        match self.layout.terminal_view {
            Some(v) => {
                let (r, c) = v.clamp_cell(col, row);
                self.pointer.selected_to = Some((r, c));
                if self.terminals.list.len() == 0 {
                    TermMouse::Nothing
                } else {
                    TermMouse::Update { row: r, col: c }
                }
            },
            None => TermMouse::Nothing,
        }
    }

    /// While a selection is held against the first or the last row, it goes on
    /// there, and the view with it.
    pub fn terminal_drag_autoscroll(&self) -> (r: TermMouse)
        requires
            self.wf(),
        ensures
            r == match (self.pointer.selected_to, self.layout.terminal_view) {
                (Some((row, col)), Some(v)) => if self.pointer.selecting && (row == 0 || row + 1
                    >= v.h) && self.terminals@.current() is Some {
                    TermMouse::Update { row, col }
                } else {
                    TermMouse::Nothing
                },
                _ => TermMouse::Nothing,
            },
    {
        if !self.pointer.selecting {
            return TermMouse::Nothing;
        }
        match (self.pointer.selected_to, self.layout.terminal_view) {
            (Some((row, col)), Some(v)) => if (row == 0 || row as u32 + 1 >= v.h as u32)
                && self.terminals.list.len() > 0 {
                TermMouse::Update { row, col }
            } else {
                TermMouse::Nothing
            },
            _ => TermMouse::Nothing,
        }
    }

    /// The selection is done.
    pub fn terminal_mouse_up(&mut self)
        requires
            old(self).wf(),
        ensures
            *final(self) == (App {
                pointer: Pointer { selecting: false, selected_to: None, ..old(self).pointer },
                ..*old(self)
            }),
            final(self).wf(),
    {
        self.pointer.selecting = false;
        self.pointer.selected_to = None;
    }

    /// The cell of the terminal that a cell of the screen is over.
    pub open spec fn terminal_cell(self, col: u16, row: u16) -> Option<(u16, u16)> {
        match self.layout.terminal_view {
            Some(v) => if v.holds(col, row) {
                Some(((row - v.y) as u16, (col - v.x) as u16))
            } else {
                None
            },
            None => None,
        }
    }
}

/// A text without its last character.
pub open spec fn shortened(s: Seq<char>) -> Seq<char> {
    if s.len() > 0 {
        s.drop_last()
    } else {
        s
    }
}

/// Whether a press in the terminal makes `b` of `a` and asks for `r`.
pub open spec fn presses_terminal(a: App, col: u16, row: u16, r: TermMouse, b: App) -> bool {
    let any = a.terminals@.current() is Some;
    match a.terminal_cell(col, row) {
        Some((y, x)) => {
            &&& b == App { pointer: Pointer { selecting: true, ..a.pointer }, ..a }
            &&& r == if !any {
                TermMouse::Nothing
            } else if a.pointer.clicks.count == 2 {
                TermMouse::SelectWord { row: y, col: x }
            } else if a.pointer.clicks.count >= 3 {
                TermMouse::SelectLine { row: y }
            } else {
                TermMouse::Begin { row: y, col: x }
            }
        },
        None => {
            &&& b == a
            &&& r == if any {
                TermMouse::Clear
            } else {
                TermMouse::Nothing
            }
        },
    }
}

/// Whether a press with Shift in the terminal makes `b` of `a` and asks for
/// `r`.
pub open spec fn extends_terminal(a: App, col: u16, row: u16, r: TermMouse, b: App) -> bool {
    match a.terminal_cell(col, row) {
        Some((y, x)) => {
            &&& b == App {
                pointer: Pointer { selecting: true, selected_to: Some((y, x)), ..a.pointer },
                ..a
            }
            &&& r == if a.terminals@.current() is Some {
                TermMouse::Extend { row: y, col: x }
            } else {
                TermMouse::Nothing
            }
        },
        None => b == a && r == TermMouse::Nothing,
    }
}

/// Whether a movement with the button held in the terminal makes `b` of `a` and
/// asks for `r`.
pub open spec fn drags_terminal(a: App, col: u16, row: u16, r: TermMouse, b: App) -> bool {
    let c = a.pointer.clicks;
    let stayed = c.count >= 2 && (c.last matches Some((_, x, y)) && x == col && y == row);
    match a.layout.terminal_view {
        Some(v) => if a.pointer.selecting && !stayed {
            let y = v.nearest(col, row).0 as u16;
            let x = v.nearest(col, row).1 as u16;
            &&& b == App { pointer: Pointer { selected_to: Some((y, x)), ..a.pointer }, ..a }
            &&& r == if a.terminals@.current() is Some {
                TermMouse::Update { row: y, col: x }
            } else {
                TermMouse::Nothing
            }
        } else {
            b == a && r == TermMouse::Nothing
        },
        None => b == a && r == TermMouse::Nothing,
    }
}

/// There are never more terminals than the bound, whoever asks for them.
pub proof fn law_the_terminals_are_bounded(a: App, t: TerminalState, cwd: Seq<char>, b: App)
    requires
        a.wf(),
        a.terminals@.list.len() < MAX_TERMINALS,
        starts(a, t, cwd, b),
    ensures
        b.terminals@.list.len() <= MAX_TERMINALS,
        b.terminals@.current() == Some(t),
        top_of(b.dialogs@) == Some(Dialog::Terminal),
{
}

/// Whether going to the terminal that is picked makes `b` of `a`.
pub open spec fn picks_terminal(a: App, b: App) -> bool {
    let p = a.picker;
    let t = a.terminals@;
    let picked = if p.selected < p.matches@.len() && p.matches@[p.selected as int]
        < t.list.len() {
        TerminalsState { active: p.matches@[p.selected as int] as int, ..t }
    } else {
        t
    };
    &&& b.terminals@ == picked
    &&& b.dialogs@ == dismissed(a.dialogs@, Dialog::TerminalPicker)
    &&& b == (App {
        dialogs: b.dialogs,
        terminals: b.terminals,
        picker: b.picker,
        ..a
    })
    &&& if a.dialogs@.contains(Dialog::TerminalPicker) {
        b.picker.query@.len() == 0 && b.picker.matches == p.matches
            && b.picker.selected == p.selected
    } else {
        b.picker == p
    }
}

/// Whether closing the terminal that is showing makes `b` of `a`.
pub open spec fn closes_terminal(a: App, b: App) -> bool {
    &&& b.terminals@ == a.terminals@.closed()
    &&& if a.terminals@.list.len() == 1 {
        &&& b.dialogs@ == dismissed(a.dialogs@, Dialog::Terminal)
        &&& b == (App {
            dialogs: b.dialogs,
            terminals: b.terminals,
            ..a
        })
    } else {
        b == (App { terminals: b.terminals, ..a })
    }
}

/// Whether asking for `q` in the terminal picker makes `b` of `a`.
pub open spec fn asks_picker(a: App, q: Seq<char>, b: App) -> bool {
    &&& b == (App { picker: b.picker, ..a })
    &&& b.picker.query@ == q
    &&& picker_lists(b.picker.matches@, labels_of(a.terminals@.names()), q)
    &&& b.picker.selected == 0
}

/// Whether copying what is selected in the terminal makes `b` of `a`.
pub open spec fn copies_terminal(a: App, text: Option<String>, b: App) -> bool {
    match text {
        Some(t) => if trim_text(t@).len() > 0 {
            &&& b == (App { clipboard_text: t, clipboard_dirty: true, toast: b.toast, ..a })
            &&& b.tells("Copied "@ + decimal(t@.len()) + " chars"@, ToastKind::Success)
        } else {
            b == a
        },
        None => b == a,
    }
}

/// Leaving copy mode undoes entering it.
pub proof fn law_leaving_copy_mode_undoes_entering_it(t: TerminalsState)
    requires
        t.wf(),
        t.current() matches Some(c) ==> !c.copy_mode,
    ensures
        t.with_copy_mode(true).with_copy_mode(false) == t,
{
    assert(t.with_copy_mode(true).with_copy_mode(false).list =~= t.list);
}

} // verus!
