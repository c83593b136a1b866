//! What shows: tabs, terminals, colours, the blinking caret, and what is looked
//! up every so often.

use crate::app::App;
use crate::buffer::Buffer;
use crate::clock::{
    blink_poll_interval, elapsed, repaint_interval, terminal_repaint_due, BLINK,
    GIT_CHECK, MEMORY_CHECK,
};
use crate::dialog::top_of;
use crate::filedialog::texts;
use crate::fonts::{ensure_terminal_icons, FontInstall};
use crate::highlight::{
    done_view, fallback_lines, kept_lines, lines_view, patched, place_of, showing_of,
    HighlightState, Showing, Span,
};
use crate::icons::{IconMode, Icons};
use crate::input::{EditorContext, FindContext, KeyContext};
use crate::requests::{commands_in, read_requests_from, take_requests, whole_lines};
use crate::steps::stepped;
use crate::tabs::TabsState;
use crate::terminals::{labels_of, TerminalsState};
use crate::text::text_lines;
use vstd::prelude::*;
use vstd::string::*;
use vstd::utf8::encode_utf8;

verus! {

impl App {
    /// What decides the meaning of the next key; `todo_empty` tells whether
    /// nothing is typed on the line for a new task.
    pub open spec fn context(self, todo_empty: bool) -> KeyContext {
        KeyContext {
            prompt: self.prompt.active,
            asks: self.prompt.asks,
            top: top_of(self.dialogs@),
            find: if self.find.active {
                Some(
                    FindContext {
                        replacing: self.find.replace_active,
                        replace_focus: self.find.replace_focus,
                    },
                )
            } else {
                None
            },
            editor: match self.shown() {
                Some(b) => Some(
                    EditorContext {
                        selecting: b.primary().selecting(),
                        multiline: b.spans_lines(),
                    },
                ),
                None => None,
            },
            todo_empty,
            copy_mode: self.terminals@.current() matches Some(t) && t.copy_mode,
            alternate_screen: self.terminals@.current() matches Some(t) && t.alternate_screen,
        }
    }

    /// What decides the meaning of the next key.
    pub fn key_context(&self, todo_empty: bool) -> (r: KeyContext)
        requires
            self.wf(),
        ensures
            r == self.context(todo_empty),
    {
        let editor = match self.tabs.active {
            Some(i) => {
                assert(self.tabs@.editors[i as int] == self.tabs.editors@[i as int]@);
                let b = &self.tabs.editors[i];
                Some(
                    EditorContext {
                        selecting: b.selection().is_some(),
                        multiline: b.spans_lines(),
                    },
                )
            },
            None => None,
        };
        let mut copy_mode = false;
        let mut alternate_screen = false;
        if self.terminals.list.len() > 0 {
            let i: usize = self.terminals.active;
            assert(self.terminals@.list[i as int] == self.terminals.list@[i as int]@);
            copy_mode = self.terminals.list[i].copy_mode;
            alternate_screen = self.terminals.list[i].alternate_screen;
        }
        KeyContext {
            prompt: self.prompt.active,
            asks: self.prompt.asks,
            top: self.top_dialog(),
            find: if self.find.active {
                Some(
                    FindContext {
                        replacing: self.find.replace_active,
                        replace_focus: self.find.replace_focus,
                    },
                )
            } else {
                None
            },
            editor,
            todo_empty,
            copy_mode,
            alternate_screen,
        }
    }

    /// The file that shows.
    pub fn active_buffer(&self) -> (r: Option<&Buffer>)
        requires
            self.wf(),
        ensures
            match r {
                Some(b) => self.shown() == Some(b@),
                None => self.shown() is None,
            },
    {
        match self.tabs.active {
            Some(i) => {
                assert(self.tabs@.editors[i as int] == self.tabs.editors@[i as int]@);
                Some(&self.tabs.editors[i])
            },
            None => None,
        }
    }

    /// Show all open files side by side, or one.
    pub fn toggle_editor_grid(&mut self)
        requires
            old(self).wf(),
        ensures
            *final(self) == (App { tabs: final(self).tabs, ..*old(self) }),
            final(self).tabs@ == (TabsState { grid: !old(self).tabs@.grid, ..old(self).tabs@ }),
            final(self).wf(),
    {
        self.tabs.grid = !self.tabs.grid;
    }

    /// Keep the caret in a view of so many rows, where it has moved.
    pub fn ensure_cursor_visible(&mut self, height: u16)
        requires
            old(self).wf(),
        ensures
            *final(self) == (App { tabs: final(self).tabs, ..*old(self) }),
            final(self).tabs@ == old(self).tabs@.framed(height),
            final(self).wf(),
    {
        self.tabs.ensure_cursor_visible(height);
    }

    /// Scroll the file that shows by so many rows.
    pub fn editor_scroll(&mut self, delta: i32)
        requires
            old(self).wf(),
        ensures
            *final(self) == (App { tabs: final(self).tabs, ..*old(self) }),
            final(self).tabs@ == old(self).tabs@.scrolled(delta as int, old(self).now),
            final(self).wf(),
    {
        let now: u64 = self.now;
        self.tabs.editor_scroll(delta, now);
    }

    /// Show the next tab.
    pub fn next_tab(&mut self)
        requires
            old(self).wf(),
        ensures
            *final(self) == (App { tabs: final(self).tabs, ..*old(self) }),
            final(self).tabs@ == old(self).tabs@.turned(1),
            final(self).wf(),
    {
        self.tabs.next_tab();
    }

    /// Show the tab before.
    pub fn prev_tab(&mut self)
        requires
            old(self).wf(),
        ensures
            *final(self) == (App { tabs: final(self).tabs, ..*old(self) }),
            final(self).tabs@ == old(self).tabs@.turned(-1),
            final(self).wf(),
    {
        self.tabs.prev_tab();
    }

    /// Move the tab that shows one place to the left. The colours go with a move.
    pub fn move_tab_left(&mut self)
        requires
            old(self).wf(),
        ensures
            moves_tabs(
                *old(self),
                old(self).tabs@.moved_left(),
                old(self).tabs@.moved_left() != old(self).tabs@,
                *final(self),
            ),
            final(self).wf(),
    {
        if self.tabs.move_tab_left() {
            self.highlights.done = Vec::new();
        }
    }

    /// Move the tab that shows one place to the right. The colours go with a move.
    pub fn move_tab_right(&mut self)
        requires
            old(self).wf(),
        ensures
            moves_tabs(
                *old(self),
                old(self).tabs@.moved_right(),
                old(self).tabs@.moved_right() != old(self).tabs@,
                *final(self),
            ),
            final(self).wf(),
    {
        if self.tabs.move_tab_right() {
            self.highlights.done = Vec::new();
        }
    }

    /// Move the terminal that shows one place to the left.
    pub fn move_terminal_left(&mut self)
        requires
            old(self).wf(),
        ensures
            *final(self) == (App { terminals: final(self).terminals, ..*old(self) }),
            final(self).terminals@ == old(self).terminals@.moved_left(),
            final(self).wf(),
    {
        self.terminals.move_terminal_left();
    }

    /// Move the terminal that shows one place to the right.
    pub fn move_terminal_right(&mut self)
        requires
            old(self).wf(),
        ensures
            *final(self) == (App { terminals: final(self).terminals, ..*old(self) }),
            final(self).terminals@ == old(self).terminals@.moved_right(),
            final(self).wf(),
    {
        self.terminals.move_terminal_right();
    }

    /// Show the next terminal.
    pub fn next_terminal(&mut self)
        requires
            old(self).wf(),
        ensures
            *final(self) == (App { terminals: final(self).terminals, ..*old(self) }),
            final(self).terminals@ == old(self).terminals@.turned(1),
            final(self).wf(),
    {
        self.terminals.next_terminal();
    }

    /// Show the terminal before.
    pub fn prev_terminal(&mut self)
        requires
            old(self).wf(),
        ensures
            *final(self) == (App { terminals: final(self).terminals, ..*old(self) }),
            final(self).terminals@ == old(self).terminals@.turned(-1),
            final(self).wf(),
    {
        self.terminals.prev_terminal();
    }

    /// Show the `n`th terminal, counted from one, where there is one.
    pub fn jump_to_terminal(&mut self, n: usize)
        requires
            old(self).wf(),
        ensures
            *final(self) == (App { terminals: final(self).terminals, ..*old(self) }),
            final(self).terminals@ == old(self).terminals@.jumped(n as int),
            final(self).wf(),
    {
        self.terminals.jump_to_terminal(n);
    }

    /// Show all terminals side by side, or one.
    pub fn toggle_terminal_grid(&mut self)
        requires
            old(self).wf(),
        ensures
            *final(self) == (App { terminals: final(self).terminals, ..*old(self) }),
            final(self).terminals@ == (TerminalsState {
                grid: !old(self).terminals@.grid,
                ..old(self).terminals@
            }),
            final(self).wf(),
    {
        self.terminals.toggle_terminal_grid();
    }

    /// Whether the terminal that shows is in copy mode.
    pub fn terminal_copy_mode(&self) -> (r: bool)
        ensures
            r == (self.terminals@.current() matches Some(t) && t.copy_mode),
    {
        self.terminals.terminal_copy_mode()
    }

    /// What the tabs of the terminals are called, those of the same name being
    /// numbered.
    pub fn terminal_labels(&self) -> (r: Vec<String>)
        ensures
            texts(r@) == labels_of(self.terminals@.names()),
    {
        self.terminals.terminal_labels()
    }

    /// Move the selection of the terminal switcher, going round.
    pub fn terminal_picker_move(&mut self, delta: i32)
        requires
            old(self).wf(),
        ensures
            moves_picker(*old(self), delta, *final(self)),
            final(self).wf(),
    {
        self.picker.terminal_picker_move(delta);
    }

    /// Choose the icons for a terminal: the set that needs a symbols font stays
    /// where that font is there already, and where the user chose it.
    pub fn ensure_terminal_icons(&mut self, font: FontInstall)
        requires
            old(self).wf(),
        ensures
            *final(self) == (App {
                icons: final(self).icons,
                status: final(self).status,
                ..*old(self)
            }),
            ({
                let settled = old(self).icons_explicit || old(self).icons.mode != IconMode::Nerd
                    || font == FontInstall::AlreadyPresent;
                &&& settled ==> final(self).icons == old(self).icons
                &&& !settled ==> final(self).icons.shows(IconMode::Unicode)
                &&& final(self).status@ == if !settled && font == FontInstall::Installed {
                    "Installed Nerd symbols font \u{2014} restart Oxru for terminal icon glyphs"@
                } else {
                    old(self).status@
                }
            }),
            final(self).wf(),
    {
        let (mode, fresh) = ensure_terminal_icons(self.icons.mode, self.icons_explicit, font);
        if mode != self.icons.mode {
            self.icons = Icons::new(mode);
        }
        if fresh {
            self.status =
            "Installed Nerd symbols font \u{2014} restart Oxru for terminal icon glyphs".to_owned();
        }
    }

    /// How long to wait between repaints that nothing asked for.
    pub fn repaint_interval(&self) -> (r: u64)
        requires
            self.wf(),
        ensures
            self.settings.fps > 0 ==> r == 1000int / self.settings.fps as int,
            self.settings.fps == 0 ==> r == 1000,
    {
        repaint_interval(self.settings.fps)
    }

    /// Whether output of a terminal is to be painted now.
    pub fn terminal_repaint_due(&self, pumped: bool) -> (r: bool)
        requires
            self.wf(),
        ensures
            r == (pumped && elapsed(self.now, self.last_terminal_repaint)
                >= if self.settings.fps > 0 {
                1000int / self.settings.fps as int
            } else {
                1000
            }),
    {
        terminal_repaint_due(
            pumped,
            self.now,
            self.last_terminal_repaint,
            self.repaint_interval(),
        )
    }

    /// The screen was painted just now.
    pub fn note_terminal_repaint(&mut self)
        ensures
            *final(self) == (App { last_terminal_repaint: old(self).now, ..*old(self) }),
    {
        self.last_terminal_repaint = self.now;
    }

    /// How often the caret has to be painted so that it blinks.
    pub fn blink_poll_interval() -> (r: u64)
        ensures
            r == BLINK / 2,
    {
        blink_poll_interval()
    }

    /// Whether the caret shows: it does for half of each blink, and anew
    /// whenever it moves or another file shows.
    pub fn cursor_blink_on(&mut self) -> (r: bool)
        requires
            old(self).wf(),
        ensures
            *final(self) == (App { blink: final(self).blink, ..*old(self) }),
            ({
                let cursor = match old(self).shown() {
                    Some(b) => b.cursor,
                    None => 0,
                };
                let was = old(self).blink;
                let moved = old(self).tabs.active != was.editor || cursor != was.cursor;
                &&& r == (moved || (elapsed(old(self).now, was.base) / (BLINK as int)) % 2 == 0)
                &&& moved ==> final(self).blink.base == old(self).now
                    && final(self).blink.editor == old(self).tabs.active
                    && final(self).blink.cursor == cursor
                &&& !moved ==> final(self).blink == was
            }),
            final(self).wf(),
    {
        let cursor: usize = match self.tabs.active {
            Some(i) => {
                assert(self.tabs@.editors[i as int] == self.tabs.editors@[i as int]@);
                self.tabs.editors[i].cursor
            },
            None => 0,
        };
        self.blink.cursor_blink_on(self.now, self.tabs.active, cursor)
    }

    /// Whether the memory in use is to be looked up now.
    pub fn memory_due(&mut self) -> (r: bool)
        requires
            old(self).wf(),
        ensures
            r == old(self).memory_check.due(old(self).now, MEMORY_CHECK),
            *final(self) == (App {
                memory_check: old(self).memory_check.polled(old(self).now, MEMORY_CHECK),
                ..*old(self)
            }),
            final(self).wf(),
    {
        let now: u64 = self.now;
        self.memory_check.poll(now, MEMORY_CHECK)
    }

    /// Note the memory in use, in kilobytes.
    pub fn poll_memory(&mut self, kb: Option<u64>)
        requires
            old(self).wf(),
        ensures
            *final(self) == (App { memory_kb: kb, ..*old(self) }),
            final(self).wf(),
    {
        self.memory_kb = kb;
    }

    /// Whether the branch is to be looked up now.
    pub fn git_due(&mut self) -> (r: bool)
        requires
            old(self).wf(),
        ensures
            r == old(self).git_check.due(old(self).now, GIT_CHECK),
            *final(self) == (App {
                git_check: old(self).git_check.polled(old(self).now, GIT_CHECK),
                ..*old(self)
            }),
            final(self).wf(),
    {
        let now: u64 = self.now;
        self.git_check.poll(now, GIT_CHECK)
    }

    /// Note what `git` said of the open folder; with no folder, or with nothing
    /// said, there is no branch.
    pub fn poll_git(&mut self, out: Option<&str>)
        requires
            old(self).wf(),
        ensures
            *final(self) == (App { git_branch: final(self).git_branch, ..*old(self) }),
            match final(self).git_branch {
                Some((b, changed)) => old(self).root is Some && (out matches Some(t)
                    && crate::gitstatus::status_of(t@) == Some((b@, changed))),
                None => old(self).root is None || (out matches Some(t) ==>
                    crate::gitstatus::status_of(t@) is None),
            },
            final(self).wf(),
    {
        if self.root.is_none() {
            self.git_branch = None;
            return;
        }
        self.git_branch = match out {
            Some(t) => crate::gitstatus::parse_git_status(t),
            None => None,
        };
    }

    /// Where to read the requests for terminals from, where the file of `len`
    /// bytes holds any that are new. A file that got shorter is read anew.
    pub fn requests_from(&mut self, len: u64) -> (r: Option<u64>)
        requires
            old(self).wf(),
        ensures
            *final(self) == (App { request_offset: final(self).request_offset, ..*old(self) }),
            final(self).request_offset == if len < old(self).request_offset {
                0
            } else {
                old(self).request_offset
            },
            r == if len > final(self).request_offset {
                Some(final(self).request_offset)
            } else {
                None
            },
            final(self).wf(),
    {
        let (from, any) = read_requests_from(len, self.request_offset);
        self.request_offset = from;
        if any {
            Some(from)
        } else {
            None
        }
    }

    /// The commands that were asked for, one to a line, out of what was read; a
    /// line that is not complete waits.
    pub fn poll_terminal_requests(&mut self, read: &str) -> (r: Vec<String>)
        requires
            old(self).wf(),
            old(self).request_offset + encode_utf8(whole_lines(read@)).len() <= u64::MAX,
        ensures
            texts(r@) == commands_in(text_lines(whole_lines(read@))),
            *final(self) == (App {
                request_offset: (old(self).request_offset + encode_utf8(
                    whole_lines(read@),
                ).len()) as u64,
                ..*old(self)
            }),
            final(self).wf(),
    {
        let (cmds, n) = take_requests(read);
        self.request_offset = self.request_offset + n as u64;
        cmds
    }

    /// How the colours of a file are to be had, where there is such a file.
    pub fn highlighted_for(&mut self, idx: usize) -> (r: Option<Showing>)
        requires
            old(self).wf(),
        ensures
            *final(self) == (App { highlights: final(self).highlights, ..*old(self) }),
            final(self).highlights.done == old(self).highlights.done,
            if idx < old(self).tabs@.editors.len() {
                let b = old(self).tabs@.editors[idx as int];
                let key = (b.id, b.revision);
                let was = old(self).highlights;
                &&& r == Some(
                    showing_of(done_view(was.done@), was.pending@, b.id, b.revision),
                )
                &&& final(self).highlights.pending@ == if r == Some(
                    Showing::Patch { begin: true },
                ) {
                    was.pending@.push(key)
                } else {
                    was.pending@
                }
            } else {
                r is None && final(self).highlights == old(self).highlights
            },
            final(self).wf(),
    {
        if idx >= self.tabs.editors.len() {
            return None;
        }
        assert(self.tabs@.editors[idx as int] == self.tabs.editors@[idx as int]@);
        let id: u64 = self.tabs.editors[idx].id;
        let revision: u64 = self.tabs.editors[idx].revision;
        Some(self.highlights.showing(id, revision))
    }

    /// The colours of a text that has changed since they were worked out: each
    /// line that is the same as before keeps its colours, and the others have
    /// none.
    pub fn patched_colours(&self, idx: usize, plain: &Vec<Vec<Span>>) -> (r: Vec<Vec<Span>>)
        requires
            self.wf(),
            idx < self.tabs@.editors.len(),
            forall|i: int| 0 <= i < plain@.len() ==> (#[trigger] plain@[i])@.len() > 0,
        ensures
            lines_view(r@) == patched(
                lines_view(plain@),
                kept_lines(done_view(self.highlights.done@), self.tabs@.editors[idx as int].id),
            ),
    {
        assert(self.tabs@.editors[idx as int] == self.tabs.editors@[idx as int]@);
        match self.highlights.of(self.tabs.editors[idx].id) {
            Some(before) => fallback_lines(plain, before),
            None => {
                let none: Vec<Vec<Span>> = Vec::new();
                let r = fallback_lines(plain, &none);
                assert(lines_view(none@) =~= Seq::empty());
                r
            },
        }
    }

    /// The colours of a file were worked out at once.
    pub fn keep_colours(&mut self, idx: usize, lines: Vec<Vec<Span>>)
        requires
            old(self).wf(),
            idx < old(self).tabs@.editors.len(),
        ensures
            *final(self) == (App { highlights: final(self).highlights, ..*old(self) }),
            final(self).highlights.pending == old(self).highlights.pending,
            done_view(final(self).highlights.done@) == {
                let b = old(self).tabs@.editors[idx as int];
                let before = done_view(old(self).highlights.done@);
                let h = HighlightState {
                    id: b.id,
                    revision: b.revision,
                    lines: lines_view(lines@),
                };
                let i = place_of(before, b.id, 0);
                if i < 0 {
                    before.push(h)
                } else {
                    before.update(i, h)
                }
            },
            final(self).wf(),
    {
        assert(self.tabs@.editors[idx as int] == self.tabs.editors@[idx as int]@);
        let id: u64 = self.tabs.editors[idx].id;
        let revision: u64 = self.tabs.editors[idx].revision;
        self.highlights.keep(id, revision, lines);
    }

    /// The revision of the first file from `i` on that has an id.
    pub open spec fn revision_of(self, id: u64, i: int) -> Option<u64>
        decreases self.tabs@.editors.len() - i,
    {
        if i >= self.tabs@.editors.len() {
            None
        } else if self.tabs@.editors[i].id == id {
            Some(self.tabs@.editors[i].revision)
        } else {
            self.revision_of(id, i + 1)
        }
    }

    /// Colours were worked out in the background. They are kept where the text
    /// is still the one that they are for.
    pub fn adopt_colours(&mut self, id: u64, revision: u64, lines: Vec<Vec<Span>>)
        requires
            old(self).wf(),
        ensures
            *final(self) == (App { highlights: final(self).highlights, ..*old(self) }),
            done_view(final(self).highlights.done@) == {
                let before = done_view(old(self).highlights.done@);
                let h = HighlightState { id, revision, lines: lines_view(lines@) };
                let i = place_of(before, id, 0);
                if old(self).revision_of(id, 0) != Some(revision) {
                    before
                } else if i < 0 {
                    before.push(h)
                } else {
                    before.update(i, h)
                }
            },
            !final(self).highlights.pending@.contains((id, revision)),
            forall|p: (u64, u64)|
                p != (id, revision) ==> #[trigger] final(self).highlights.pending@.contains(p)
                    == old(self).highlights.pending@.contains(p),
            final(self).wf(),
    {
        let mut current: Option<u64> = None;
        let mut i: usize = 0;
        let ghost a = *self;
        while i < self.tabs.editors.len() && current.is_none()
            invariant
                *self == a,
                i <= self.tabs.editors@.len(),
                a.tabs@.editors.len() == self.tabs.editors@.len(),
                a.revision_of(id, 0) == match current {
                    Some(r) => Some(r),
                    None => a.revision_of(id, i as int),
                },
            decreases self.tabs.editors.len() - i,
        {
            assert(a.tabs@.editors[i as int] == self.tabs.editors@[i as int]@);
            if self.tabs.editors[i].id == id {
                current = Some(self.tabs.editors[i].revision);
            }
            i = i + 1;
        }
        self.highlights.adopt(id, revision, lines, current);
    }
}

/// Whether moving the cursor of the terminal picker makes `b` of `a`.
pub open spec fn moves_picker(a: App, delta: i32, b: App) -> bool {
    &&& b == (App { picker: b.picker, ..a })
    &&& b.picker.query == a.picker.query
    &&& b.picker.matches == a.picker.matches
    &&& b.picker.selected == if a.picker.matches@.len() == 0 {
        a.picker.selected as int
    } else {
        stepped(
            a.picker.selected as int,
            delta as int,
            a.picker.matches@.len() as int,
        )
    }
}

/// Whether `b` is `a` with the tabs in the order of `t`. Where a tab moved, all
/// colours are to be worked out anew.
pub open spec fn moves_tabs(a: App, t: TabsState, moved: bool, b: App) -> bool {
    &&& b == App { tabs: b.tabs, highlights: b.highlights, ..a }
    &&& b.tabs@ == t
    &&& if moved {
        b.highlights.done@.len() == 0 && b.highlights.pending == a.highlights.pending
    } else {
        b.highlights == a.highlights
    }
}

} // verus!
