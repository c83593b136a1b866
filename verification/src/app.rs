//! The state of the editor, and what each gesture does to it.
//!
//! Nothing here reads or writes a file, the clipboard or a terminal. Where that
//! is called for, a method says so in its result or leaves a note in a field,
//! and the outcome comes back as an argument.

use crate::clock::{Blink, Throttle};
use crate::color::{hex_color, Rgb};
use crate::config::{
    clamped, nearest_fps, Config, Prefs, Theme, DIALOG_SIZE_DEFAULT, DIALOG_SIZE_MAX,
    DIALOG_SIZE_MIN, FONT_SIZE_DEFAULT, FONT_SIZE_MAX, FONT_SIZE_MIN,
};
use crate::dialog::{stack_ok, top_of, Dialog};
use crate::filedialog::{texts, FileDialog};
use crate::find::{Find, FindState};
use crate::fstree::collect::{collect_files, kept_files, sorted_paths, walk_view};
use crate::fstree::{listing_view, root_rows, FileTree, Filter, TreeState};
use crate::highlight::Highlights;
use crate::hits::{Clicks, Pane, Rect, TabHit};
use crate::icons::Icons;
use crate::prompt::{Prompt, PromptState};
use crate::recent::{RecentDialog, RecentState};
use crate::search::{ProjectSearch, SearchState};
use crate::settings::{Settings, SettingsState};
use crate::tabs::{Tabs, TabsState};
use crate::terminals::{TerminalPicker, Terminals, TerminalsState};
use crate::toast::{expire_toast, opt_toast, Toast, ToastKind, ToastState};
use vstd::prelude::*;
use vstd::string::*;

pub mod acting;
pub mod actlaws;
pub mod browselaws;
pub mod browsing;
pub mod dialogs;
pub mod disk;
pub mod editing;
pub mod files;
pub mod finding;
pub mod findlaws;
pub mod folders;
pub mod listlaws;
pub mod mouse;
pub mod mouselaws;
pub mod pointer;
pub mod prompting;
pub mod querying;
pub mod questionlaws;
pub mod quitting;
pub mod routelaws;
pub mod searching;
pub mod showing;
pub mod terminal;

verus! {

/// A part of the path above the text: its columns from and to, and the folder
/// that it names.
#[derive(Debug)]
pub struct Crumb {
    pub from: u16,
    pub to: u16,
    pub folder: String,
}

/// The thumb of a pane's scrollbar: the file, and the thumb's first row and
/// height.
#[derive(Debug, Clone, Copy, PartialEq, Eq, Structural)]
pub struct Thumb {
    pub editor: usize,
    pub top: u16,
    pub height: u16,
}

/// Where the last frame put things, for the mouse to find them.
pub struct Layout {
    /// The tabs of the files.
    pub tab_strip: Option<Rect>,
    pub tab_hits: Vec<TabHit>,
    pub crumbs: Vec<Crumb>,
    pub panes: Vec<Pane>,
    pub thumbs: Vec<Thumb>,
    /// The body of the terminal.
    pub terminal_view: Option<Rect>,
    pub terminal_strip: Option<Rect>,
    pub terminal_hits: Vec<TabHit>,
    /// The cells of the terminals, where all show at once.
    pub terminal_cells: Vec<Rect>,
    /// The rows of the file dialog, and the first one that shows.
    pub list: Option<Rect>,
    pub list_start: usize,
}

/// What the mouse is in the middle of.
#[derive(Debug, Clone, Copy)]
pub struct Pointer {
    pub clicks: Clicks,
    /// The press went to the program in the terminal, so the rest of the
    /// gesture does too.
    pub to_program: bool,
    /// The tab that is dragged.
    pub tab_drag: Option<usize>,
    pub terminal_tab_drag: Option<usize>,
    /// The pane whose scrollbar is dragged, and the row of the thumb that was
    /// grabbed.
    pub scrollbar_drag: Option<(usize, u16)>,
    /// Text of the terminal is being selected, and the row and column that it
    /// was selected to.
    pub selecting: bool,
    pub selected_to: Option<(u16, u16)>,
    /// The row of the file dialog under the mouse.
    pub hover: Option<usize>,
    /// The row of the tree that is dragged.
    pub tree_drag: Option<usize>,
}

/// One thing to be asked about before quitting.
#[derive(Debug, Clone, Copy, PartialEq, Eq, Structural)]
pub enum QuitBlocker {
    UnsavedFile(usize),
    RunningTerminal(usize),
}

/// The questions before quitting, and how far they have been answered.
pub struct QuitFlow {
    pub quitting: bool,
    pub queue: Vec<QuitBlocker>,
    pub pos: usize,
}

impl QuitFlow {
    /// No quitting is under way.
    pub open spec fn idle(self) -> bool {
        !self.quitting && self.queue@.len() == 0 && self.pos == 0
    }
}

/// The files that the file dialog searches.
pub struct Entries {
    pub paths: Vec<String>,
    /// What is shown and searched of each.
    pub display: Vec<String>,
    /// Shown faded.
    pub ignored: Vec<bool>,
    /// Changes with the list.
    pub rev: u64,
}

impl Entries {
    /// The lists belong together.
    pub open spec fn wf(self) -> bool {
        &&& self.paths@.len() == self.display@.len()
        &&& self.paths@.len() == self.ignored@.len()
    }
}

/// Whether the settings are to be written, and whether that is announced.
#[derive(Debug, Clone, Copy, PartialEq, Eq, Structural)]
pub enum SettingsWrite {
    No,
    Quiet,
    Announced,
}

/// The state of the editor.
pub struct App {
    /// The open folder.
    pub root: Option<String>,
    /// The open dialogs; the last one has the focus.
    pub dialogs: Vec<Dialog>,
    pub tree: FileTree,
    pub tabs: Tabs,
    pub find: Find,
    pub search: ProjectSearch,
    pub terminals: Terminals,
    /// Where the last terminal was started.
    pub last_terminal_cwd: Option<String>,
    pub picker: TerminalPicker,
    pub prompt: Prompt,
    pub file_dialog: FileDialog,
    pub entries: Entries,
    /// The search takes in what builds and package managers leave.
    pub show_junk: bool,
    /// The folder that the file dialog is limited to.
    pub scope: Option<String>,
    pub recent: RecentDialog,
    pub settings: Settings,
    pub settings_write: SettingsWrite,
    /// The first row of the cheat sheet that shows.
    pub help_scroll: usize,
    pub quit: QuitFlow,
    pub should_quit: bool,
    /// A folder is to be picked.
    pub open_folder_requested: bool,
    pub toast: Option<Toast>,
    pub status: String,
    /// What was copied last, and whether the clipboard is still to get it.
    pub clipboard_text: String,
    pub clipboard_dirty: bool,
    pub layout: Layout,
    pub pointer: Pointer,
    pub icons: Icons,
    /// The icons were chosen by the user.
    pub icons_explicit: bool,
    pub highlights: Highlights,
    /// The files of the project.
    pub files: Vec<String>,
    /// How much of the requests for terminals was read.
    pub request_offset: u64,
    /// The branch, and whether there are changes.
    pub git_branch: Option<(String, bool)>,
    pub memory_kb: Option<u64>,
    pub file_check: Throttle,
    pub memory_check: Throttle,
    pub git_check: Throttle,
    pub blink: Blink,
    pub last_terminal_repaint: u64,
    /// The time, in milliseconds on a clock that never goes back.
    pub now: u64,
}

/// What is known of a folder: what it holds, which of it is ignored, and the
/// paths below it, each with whether it is a file.
pub struct FolderFiles {
    pub listing: Vec<(String, bool)>,
    pub filter: Filter,
    pub walk: Vec<(String, bool)>,
    /// The paths below it that are not ignored.
    pub heeding_walk: Vec<(String, bool)>,
}

/// What is on disk after files were made, renamed, moved or deleted there.
pub struct DiskFiles {
    /// What the folder of the tree holds.
    pub listing: Vec<(String, bool)>,
    /// What the unfolded folders in it hold.
    pub listings: Vec<(String, Vec<(String, bool)>)>,
    /// The paths below the open folder, without the junk.
    pub files: Vec<(String, bool)>,
    /// The paths below the folder that the file dialog shows.
    pub walk: Vec<(String, bool)>,
    /// Those of them that are not ignored.
    pub heeding_walk: Vec<(String, bool)>,
}

/// Whether settings are those of the configuration.
pub open spec fn configured(
    s: SettingsState,
    config: Config,
    base: Theme,
    palette: Seq<Rgb>,
) -> bool {
    &&& !s.open && s.focus == 0 && s.color == 0
    &&& s.palette == palette
    &&& s.font_size == match config.gui.font_size {
        Some(n) => clamped(n as int, FONT_SIZE_MIN as int, FONT_SIZE_MAX as int),
        None => FONT_SIZE_DEFAULT as int,
    }
    &&& nearest_fps(
        s.fps,
        match config.gui.fps {
            Some(n) => n,
            None => 60,
        },
    )
    &&& s.dialog_size == match config.gui.dialog_size {
        Some(n) => clamped(n as int, DIALOG_SIZE_MIN as int, DIALOG_SIZE_MAX as int),
        None => DIALOG_SIZE_DEFAULT as int,
    }
    &&& s.word_wrap == (config.gui.word_wrap == Some(true))
    &&& s.accent == match config.colour("accent"@) {
        Some(t) => match hex_color(t) {
            Some(c) => c,
            None => base.accent,
        },
        None => base.accent,
    }
}

impl Layout {
    /// Nothing was painted yet.
    pub open spec fn blank(self) -> bool {
        &&& self.tab_strip is None
        &&& self.tab_hits@.len() == 0
        &&& self.crumbs@.len() == 0
        &&& self.panes@.len() == 0
        &&& self.thumbs@.len() == 0
        &&& self.terminal_view is None
        &&& self.terminal_strip is None
        &&& self.terminal_hits@.len() == 0
        &&& self.terminal_cells@.len() == 0
        &&& self.list is None
        &&& self.list_start == 0
    }
}

impl Default for Layout {
    fn default() -> (r: Layout)
        ensures
            r.blank(),
    {
        Layout {
            tab_strip: None,
            tab_hits: Vec::new(),
            crumbs: Vec::new(),
            panes: Vec::new(),
            thumbs: Vec::new(),
            terminal_view: None,
            terminal_strip: None,
            terminal_hits: Vec::new(),
            terminal_cells: Vec::new(),
            list: None,
            list_start: 0,
        }
    }
}

impl Pointer {
    /// No button is held.
    pub open spec fn idle() -> Pointer {
        Pointer {
            clicks: Clicks { last: None, count: 0 },
            to_program: false,
            tab_drag: None,
            terminal_tab_drag: None,
            scrollbar_drag: None,
            selecting: false,
            selected_to: None,
            hover: None,
            tree_drag: None,
        }
    }
}

impl Default for Pointer {
    fn default() -> (r: Pointer)
        ensures
            r == Pointer::idle(),
    {
        Pointer {
            clicks: Clicks { last: None, count: 0 },
            to_program: false,
            tab_drag: None,
            terminal_tab_drag: None,
            scrollbar_drag: None,
            selecting: false,
            selected_to: None,
            hover: None,
            tree_drag: None,
        }
    }
}

impl App {
    /// What holds of the editor between two gestures.
    pub open spec fn wf(self) -> bool {
        &&& stack_ok(self.dialogs@)
        &&& self.tree@.wf()
        &&& self.tabs@.wf()
        &&& self.find@.wf()
        &&& self.terminals@.wf()
        &&& self.picker.wf()
        &&& self.recent@.wf()
        &&& self.settings@.wf()
        &&& self.entries.wf()
        &&& self.file_dialog.wf()
        &&& self.file_dialog.cache_is_for(texts(self.entries.display@), self.entries.rev)
        &&& self.quit.pos <= self.quit.queue@.len()
    }

    /// The notice that shows.
    pub open spec fn notice(self) -> Option<ToastState> {
        opt_toast(self.toast)
    }

    /// Whether a notice with this text was just put up.
    pub open spec fn tells(self, message: Seq<char>, kind: ToastKind) -> bool {
        self.notice() == Some(ToastState { message, kind, created: self.now })
    }

    /// The editor at the start, with the folder `root` open where there is one.
    /// `files` is what is known of that folder, and `palette` are the accent
    /// colours on offer.
    pub fn new(
        root: Option<String>,
        files: FolderFiles,
        config: &Config,
        base: Theme,
        palette: Vec<Rgb>,
        now: u64,
    ) -> (r: App)
        requires
            palette@.len() > 0,
        ensures
            r.wf(),
            r.root == root,
            r.dialogs@ == Seq::<Dialog>::empty(),
            r.tree@ == match root {
                Some(p) => TreeState {
                    root: p@,
                    entries: root_rows(p@, listing_view(files.listing@), files.filter),
                    selected: 0,
                    filter: files.filter,
                },
                None => TreeState {
                    root: Seq::empty(),
                    entries: Seq::empty(),
                    selected: 0,
                    filter: Filter { rules: None },
                },
            },
            texts(r.files@) == match root {
                Some(_) => sorted_paths(kept_files(walk_view(files.walk@))),
                None => Seq::empty(),
            },
            r.tabs@ == TabsState::none(),
            r.find@ == FindState::fresh(),
            r.search@ == SearchState::blank(false),
            r.terminals@ == TerminalsState::none(),
            r.last_terminal_cwd is None,
            r.picker.query@.len() == 0 && r.picker.matches@.len() == 0 && r.picker.selected == 0,
            r.prompt@ == PromptState::closed(),
            !r.file_dialog.active && r.file_dialog.blank(),
            r.entries.paths@.len() == 0 && r.entries.rev == 0,
            !r.show_junk && r.scope is None,
            r.recent@ == RecentState::empty(),
            configured(r.settings@, *config, base, palette@),
            r.settings_write == SettingsWrite::No,
            r.help_scroll == 0,
            r.quit.idle() && !r.should_quit && !r.open_folder_requested,
            r.toast is None,
            r.status@.len() == 0 && r.clipboard_text@.len() == 0 && !r.clipboard_dirty,
            r.layout.blank(),
            r.pointer == Pointer::idle(),
            r.icons.shows(config.chosen_mode()),
            r.icons_explicit == (config.icons is Some),
            r.highlights.done@.len() == 0 && r.highlights.pending@.len() == 0,
            r.request_offset == 0,
            r.git_branch is None && r.memory_kb is None,
            r.file_check.last == Some(now),
            r.memory_check.last is None && r.git_check.last is None,
            r.blink == (Blink { base: now, editor: None, cursor: 0 }),
            r.last_terminal_repaint == now,
            r.now == now,
    {
        let theme = config.theme(base);
        let prefs = Prefs {
            font_size: config.gui_font_size(),
            fps: config.gui_fps(),
            dialog_size: config.gui_dialog_size(),
            word_wrap: config.word_wrap(),
            accent: theme.accent,
        };
        let settings = Settings::new(&prefs, palette);
        let tree = match &root {
            Some(p) => FileTree::new(p.clone(), &files.listing, files.filter),
            None => FileTree::empty(),
        };
        let all = match &root {
            Some(_) => collect_files(&files.walk).0,
            None => Vec::new(),
        };
        let entries = Entries {
            paths: Vec::new(),
            display: Vec::new(),
            ignored: Vec::new(),
            rev: 0,
        };
        assert(texts(all@) =~= match root {
            Some(_) => sorted_paths(kept_files(walk_view(files.walk@))),
            None => Seq::empty(),
        });
        App {
            root,
            dialogs: Vec::new(),
            tree,
            tabs: Tabs::default(),
            find: Find::default(),
            search: ProjectSearch::default(),
            terminals: Terminals::default(),
            last_terminal_cwd: None,
            picker: TerminalPicker::default(),
            prompt: Prompt::default(),
            file_dialog: FileDialog::default(),
            entries,
            show_junk: false,
            scope: None,
            recent: RecentDialog::default(),
            settings,
            settings_write: SettingsWrite::No,
            help_scroll: 0,
            quit: QuitFlow { quitting: false, queue: Vec::new(), pos: 0 },
            should_quit: false,
            open_folder_requested: false,
            toast: None,
            status: String::new(),
            clipboard_text: String::new(),
            clipboard_dirty: false,
            layout: Layout::default(),
            pointer: Pointer::default(),
            icons: config.icons(),
            icons_explicit: config.icons.is_some(),
            highlights: Highlights { done: Vec::new(), pending: Vec::new() },
            files: all,
            request_offset: 0,
            git_branch: None,
            memory_kb: None,
            file_check: Throttle { last: Some(now) },
            memory_check: Throttle { last: None },
            git_check: Throttle { last: None },
            blink: Blink { base: now, editor: None, cursor: 0 },
            last_terminal_repaint: now,
            now,
        }
    }

    /// Whether a folder is open.
    pub fn has_folder(&self) -> (r: bool)
        ensures
            r == (self.root is Some),
    {
        self.root.is_some()
    }

    /// The dialog that has the focus.
    pub fn top_dialog(&self) -> (r: Option<Dialog>)
        ensures
            r == top_of(self.dialogs@),
    {
        let n: usize = self.dialogs.len();
        if n > 0 {
            Some(self.dialogs[n - 1])
        } else {
            None
        }
    }

    /// Whether the terminal has the focus.
    pub fn terminal_focused(&self) -> (r: bool)
        ensures
            r == (top_of(self.dialogs@) == Some(Dialog::Terminal)),
    {
        match self.top_dialog() {
            Some(Dialog::Terminal) => true,
            _ => false,
        }
    }

    /// Put up a notice.
    pub fn notify(&mut self, message: String, kind: ToastKind)
        ensures
            *final(self) == (App { toast: final(self).toast, ..*old(self) }),
            final(self).tells(message@, kind),
    {
        self.toast = Some(Toast { message, kind, created: self.now });
    }

    /// Take down a notice that has been up for its time.
    pub fn expire_toast(&mut self)
        ensures
            *final(self) == (App { toast: final(self).toast, ..*old(self) }),
            final(self).notice() == match old(self).notice() {
                Some(t) => if t.shows(old(self).now) {
                    Some(t)
                } else {
                    None
                },
                None => None,
            },
    {
        let now: u64 = self.now;
        expire_toast(&mut self.toast, now);
    }

    /// Keep `text` as what was copied last; the front end puts it on the
    /// clipboard.
    pub fn set_clipboard(&mut self, text: String)
        ensures
            *final(self) == (App {
                clipboard_text: text,
                clipboard_dirty: true,
                ..*old(self)
            }),
    {
        self.clipboard_text = text;
        self.clipboard_dirty = true;
    }

    /// What is to be pasted: what the clipboard holds, or what was copied last
    /// where the clipboard cannot be reached.
    pub fn get_clipboard(&self, system: Option<String>) -> (r: String)
        ensures
            r@ == match system {
                Some(t) => t@,
                None => self.clipboard_text@,
            },
    {
        match system {
            Some(t) => t,
            None => self.clipboard_text.clone(),
        }
    }

    /// Ask for a folder to be picked.
    pub fn request_open_folder(&mut self)
        ensures
            *final(self) == (App { open_folder_requested: true, ..*old(self) }),
    {
        self.open_folder_requested = true;
    }

    /// Whether a folder is to be picked; asked once for each request.
    pub fn take_open_folder_request(&mut self) -> (r: bool)
        ensures
            r == old(self).open_folder_requested,
            *final(self) == (App { open_folder_requested: false, ..*old(self) }),
    {
        let r = self.open_folder_requested;
        self.open_folder_requested = false;
        r
    }
}

} // verus!
