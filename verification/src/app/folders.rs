//! Opening folders, the recent ones and others, and the settings.

use crate::app::dialogs::{dismisses, torn_down};
use crate::app::{App, FolderFiles, SettingsWrite};
use crate::clock::Throttle;
use crate::config::Prefs;
use crate::dialog::{dismissed, Dialog};
use crate::filedialog::texts;
use crate::fstree::collect::{collect_files, kept_files, sorted_paths, walk_view};
use crate::fstree::{listing_view, root_rows, FileTree, TreeState};
use crate::paths::holds_path;
use crate::prompt::PromptState;
use crate::recent::{Deletion, Opening, RecentState};
use crate::settings::{SettingsState, SETTINGS_SECTIONS};
use crate::steps::{picked, stepped};
use crate::tabs::TabsState;
use crate::terminals::{Terminals, TerminalsState};
use crate::text::{decimal, with_number};
use crate::toast::ToastKind;
use vstd::prelude::*;
use vstd::string::*;

verus! {

/// Folders that are to be opened.
#[derive(Debug)]
pub enum FolderStep {
    Nothing,
    /// Each in a window of its own.
    Windows(Vec<String>),
    /// The first in this window, the others in windows of their own.
    Here { first: String, others: Vec<String> },
}

/// The folders that opening the recent ones is about: the ticked ones that are
/// not open, or the one under the cursor.
pub open spec fn wanted_folders(s: RecentState) -> Seq<Seq<char>> {
    let ready = picked(s.folders, s.ready());
    if ready.len() > 0 {
        ready
    } else {
        seq![s.folders[s.cursor]]
    }
}

impl App {
    /// Fill the recent folders. `resolved` are the same folders with links
    /// followed, and `open` are those open in some window.
    pub fn init_recent_dialog(
        &mut self,
        folders: Vec<String>,
        resolved: &Vec<String>,
        open: &Vec<String>,
    )
        requires
            old(self).wf(),
            resolved@.len() == folders@.len(),
        ensures
            *final(self) == (App { recent: final(self).recent, ..*old(self) }),
            final(self).recent@ == (RecentState {
                open: true,
                folders: texts(folders@),
                cursor: 0,
                checked: Seq::new(folders@.len(), |i: int| false),
                disabled: Seq::new(
                    folders@.len(),
                    |i: int| holds_path(texts(open@), texts(resolved@)[i]),
                ),
            }),
            final(self).wf(),
    {
        self.recent.fill(folders, resolved, open);
    }

    /// Move between the recent folders, round the list.
    pub fn recent_move(&mut self, delta: i32)
        requires
            old(self).wf(),
        ensures
            moves_recent(*old(self), delta, *final(self)),
            final(self).wf(),
    {
        self.recent.recent_move(delta);
    }

    /// Tick or untick the folder under the cursor, unless it is open.
    pub fn recent_toggle(&mut self)
        requires
            old(self).wf(),
        ensures
            ticks_recent(*old(self), *final(self)),
            final(self).wf(),
    {
        if !self.recent.recent_toggle() {
            self.notify("Already open in a window".to_owned(), ToastKind::Info);
        }
    }

    /// Take the ticked folders, or the one under the cursor, out of the recent
    /// ones. Those that are open stay. What is gone is to be forgotten on disk
    /// too.
    pub fn recent_delete_selected(&mut self) -> (r: Vec<String>)
        requires
            old(self).wf(),
        ensures
            deletes_recent(*old(self), r, *final(self)),
            final(self).wf(),
    {
        match self.recent.recent_delete_selected() {
            Deletion::Empty => Vec::new(),
            Deletion::AllOpen => {
                self.notify(
                    "Cannot delete an open folder from Recent".to_owned(),
                    ToastKind::Error,
                );
                let none: Vec<String> = Vec::new();
                assert(texts(none@) =~= picked(old(self).recent@.folders, old(self).recent@.doomed()));
                none
            },
            Deletion::Removed { folders, skipped } => {
                let n: usize = folders.len();
                let m = if skipped == 0 {
                    with_number("Removed ", n, " folder(s) from recents")
                } else {
                    let head = with_number("Removed ", n, " folder(s); skipped ");
                    with_number(head.as_str(), skipped, " open folder(s)")
                };
                self.notify(m, ToastKind::Info);
                folders
            },
        }
    }

    /// Open the ticked folders, or the one under the cursor. A window with a
    /// folder keeps it, and each goes to a window of its own; an empty window
    /// takes the first.
    pub fn recent_open_selected(&mut self) -> (r: FolderStep)
        requires
            old(self).wf(),
        ensures
            opens_recent(*old(self), r, *final(self)),
            final(self).wf(),
    {
        match self.recent.recent_open_selected() {
            Opening::Empty => FolderStep::Nothing,
            Opening::AlreadyOpen => {
                self.notify("That folder is already open".to_owned(), ToastKind::Info);
                FolderStep::Nothing
            },
            Opening::Folders(folders) => {
                self.dismiss_dialog(Dialog::Recent);
                let n: usize = folders.len();
                if self.has_folder() {
                    self.notify(with_number("Opened ", n, " window(s)"), ToastKind::Success);
                    FolderStep::Windows(folders)
                } else {
                    let ghost all = texts(folders@);
                    let mut others = folders;
                    assert(all.len() > 0);
                    let first = others.remove(0);
                    assert(first@ == all[0]);
                    assert(texts(others@) =~= all.skip(1));
                    if n > 1 {
                        self.notify(
                            with_number("Opened +", n - 1, " window(s)"),
                            ToastKind::Success,
                        );
                    }
                    FolderStep::Here { first, others }
                }
            },
        }
    }

    /// A folder was picked: it goes to a window of its own where this one has a
    /// folder, else it opens here. Says whether it opens here.
    pub fn open_picked_folder(&mut self) -> (r: bool)
        requires
            old(self).wf(),
        ensures
            r == (old(self).root is None),
            dismisses(*old(self), Dialog::Recent, *final(self)),
            final(self).wf(),
    {
        self.dismiss_dialog(Dialog::Recent);
        !self.has_folder()
    }

    /// Tell that a folder was opened in a window of its own, where the window
    /// could be started.
    pub fn opened_elsewhere(&mut self, started: bool)
        requires
            old(self).wf(),
        ensures
            *final(self) == (App { toast: final(self).toast, ..*old(self) }),
            if started {
                final(self).tells("Opened in a new window"@, ToastKind::Success)
            } else {
                final(self).toast == old(self).toast
            },
            final(self).wf(),
    {
        if started {
            self.notify("Opened in a new window".to_owned(), ToastKind::Success);
        }
    }

    /// Open another folder in this window. What belonged to the one before
    /// goes.
    pub fn switch_root(&mut self, root: String, files: FolderFiles)
        requires
            old(self).wf(),
        ensures
            *final(self) == (App {
                root: Some(root),
                dialogs: final(self).dialogs,
                tabs: final(self).tabs,
                terminals: final(self).terminals,
                highlights: final(self).highlights,
                file_dialog: final(self).file_dialog,
                prompt: final(self).prompt,
                git_branch: None,
                git_check: Throttle { last: None },
                recent: final(self).recent,
                settings: final(self).settings,
                tree: final(self).tree,
                files: final(self).files,
                ..*old(self)
            }),
            final(self).dialogs@.len() == 0,
            final(self).tabs@ == (TabsState {
                editors: Seq::empty(),
                active: None,
                closed: Seq::empty(),
                last_cursor: None,
                session_dirty: false,
                ..old(self).tabs@
            }),
            final(self).terminals@ == TerminalsState::none(),
            final(self).highlights.done@.len() == 0,
            final(self).highlights.pending == old(self).highlights.pending,
            !final(self).file_dialog.active && final(self).file_dialog.blank(),
            final(self).file_dialog.same_cache(&old(self).file_dialog),
            final(self).prompt@ == PromptState::closed(),
            final(self).recent@ == (RecentState { open: false, ..old(self).recent@ }),
            final(self).settings@ == (SettingsState { open: false, ..old(self).settings@ }),
            final(self).tree@ == (TreeState {
                root: root@,
                entries: root_rows(root@, listing_view(files.listing@), files.filter),
                selected: 0,
                filter: files.filter,
            }),
            texts(final(self).files@) == sorted_paths(kept_files(walk_view(files.walk@))),
            final(self).wf(),
    {
        let ghost t = self.tabs@;
        self.dialogs = Vec::new();
        self.tabs.editors = Vec::new();
        self.tabs.active = None;
        self.tabs.closed = Vec::new();
        self.tabs.last_cursor = None;
        self.tabs.session_dirty = false;
        assert(self.tabs@ =~= TabsState {
            editors: Seq::empty(),
            active: None,
            closed: Seq::empty(),
            last_cursor: None,
            session_dirty: false,
            ..t
        });
        self.terminals = Terminals::default();
        self.highlights.done = Vec::new();
        self.file_dialog.close();
        self.prompt.close();
        self.git_branch = None;
        self.git_check = Throttle { last: None };
        self.recent.open = false;
        self.settings.open = false;
        self.tree = FileTree::new(root.clone(), &files.listing, files.filter);
        self.files = collect_files(&files.walk).0;
        self.root = Some(root);
    }

    /// Move between the sections of the settings, going round.
    pub fn settings_move_focus(&mut self, delta: i32)
        requires
            old(self).wf(),
        ensures
            moves_focus(*old(self), delta, *final(self)),
            final(self).wf(),
    {
        self.settings.settings_move_focus(delta);
    }

    /// Change the focused setting. It is to be written at once, so that nothing
    /// is lost.
    pub fn settings_adjust(&mut self, delta: i32)
        requires
            old(self).wf(),
        ensures
            adjusts(*old(self), delta, *final(self)),
            final(self).wf(),
    {
        self.settings.settings_adjust(delta);
        if self.settings_write != SettingsWrite::Announced {
            self.settings_write = SettingsWrite::Quiet;
        }
    }

    /// Wrap long lines, or stop doing so. It is to be written at once.
    pub fn toggle_word_wrap(&mut self)
        requires
            old(self).wf(),
        ensures
            toggles_wrap(*old(self), *final(self)),
            final(self).wf(),
    {
        self.settings.word_wrap = !self.settings.word_wrap;
        if self.settings_write != SettingsWrite::Announced {
            self.settings_write = SettingsWrite::Quiet;
        }
    }

    /// The settings to be written, where they are.
    pub fn settings_to_write(&self) -> (r: Option<Prefs>)
        ensures
            match r {
                Some(p) => {
                    &&& self.settings_write != SettingsWrite::No
                    &&& p.font_size == self.settings@.font_size
                    &&& p.fps == self.settings@.fps
                    &&& p.dialog_size == self.settings@.dialog_size
                    &&& p.word_wrap == self.settings@.word_wrap
                    &&& p.accent == self.settings@.accent
                },
                None => self.settings_write == SettingsWrite::No,
            },
    {
        if self.settings_write == SettingsWrite::No {
            None
        } else {
            Some(self.settings.prefs())
        }
    }

    /// Note what came of writing the settings.
    pub fn persist_settings(&mut self, error: Option<String>)
        requires
            old(self).wf(),
        ensures
            match error {
                Some(e) => {
                    &&& *final(self) == (App {
                        settings_write: SettingsWrite::No,
                        toast: final(self).toast,
                        ..*old(self)
                    })
                    &&& final(self).tells("Couldn't save settings: "@ + e@, ToastKind::Error)
                },
                None => if old(self).settings_write == SettingsWrite::Announced {
                    &&& *final(self) == (App {
                        settings_write: SettingsWrite::No,
                        toast: final(self).toast,
                        ..*old(self)
                    })
                    &&& final(self).tells("Settings saved"@, ToastKind::Success)
                } else {
                    *final(self) == (App { settings_write: SettingsWrite::No, ..*old(self) })
                },
            },
            final(self).wf(),
    {
        let announced = self.settings_write == SettingsWrite::Announced;
        self.settings_write = SettingsWrite::No;
        match error {
            Some(e) => {
                let mut m = "Couldn't save settings: ".to_owned();
                m.append(e.as_str());
                self.notify(m, ToastKind::Error);
            },
            None => {
                if announced {
                    self.notify("Settings saved".to_owned(), ToastKind::Success);
                }
            },
        }
    }
}

/// Whether `b` is `a` after the recent folders were closed, whatever notice was
/// put up.
pub open spec fn leaves_recents(a: App, b: App) -> bool {
    &&& b.dialogs@ == dismissed(a.dialogs@, Dialog::Recent)
    &&& if a.dialogs@.contains(Dialog::Recent) {
        torn_down(App { toast: b.toast, ..a }, b, set![Dialog::Recent])
    } else {
        b == App { toast: b.toast, ..a }
    }
}

/// Whether moving the cursor of the recent folders makes `b` of `a`.
pub open spec fn moves_recent(a: App, delta: i32, b: App) -> bool {
    &&& b == (App { recent: b.recent, ..a })
    &&& b.recent@ == (RecentState {
        cursor: if a.recent@.folders.len() == 0 {
            a.recent@.cursor
        } else {
            stepped(
                a.recent@.cursor,
                delta as int,
                a.recent@.folders.len() as int,
            )
        },
        ..a.recent@
    })
}

/// Whether ticking the recent folder under the cursor makes `b` of `a`.
pub open spec fn ticks_recent(a: App, b: App) -> bool {
    let s = a.recent@;
    if s.folders.len() > 0 && s.disabled[s.cursor] {
        &&& b == (App {
            recent: b.recent,
            toast: b.toast,
            ..a
        })
        &&& b.recent@ == s
        &&& b.tells("Already open in a window"@, ToastKind::Info)
    } else {
        &&& b == (App { recent: b.recent, ..a })
        &&& b.recent@ == if s.folders.len() == 0 {
            s
        } else {
            RecentState {
                checked: s.checked.update(s.cursor, !s.checked[s.cursor]),
                ..s
            }
        }
    }
}

/// Whether taking recent folders off the list makes `b` of `a`, and which those are.
pub open spec fn deletes_recent(a: App, r: Vec<String>, b: App) -> bool {
    let s = a.recent@;
    let gone = picked(s.folders, s.doomed());
    let kept = picked(s.folders, s.spared()).len();
    if s.folders.len() == 0 {
        &&& b == (App { recent: b.recent, ..a })
        &&& b.recent@ == s
        &&& r@.len() == 0
    } else {
        &&& b == (App {
            recent: b.recent,
            toast: b.toast,
            ..a
        })
        &&& texts(r@) == gone
        &&& if gone.len() == 0 {
            &&& b.recent@ == s
            &&& b.tells(
                "Cannot delete an open folder from Recent"@,
                ToastKind::Error,
            )
        } else {
            &&& b.recent@ == s.without_doomed()
            &&& b.tells(
                if kept == 0 {
                    "Removed "@ + decimal(gone.len()) + " folder(s) from recents"@
                } else {
                    "Removed "@ + decimal(gone.len()) + " folder(s); skipped "@
                        + decimal(kept) + " open folder(s)"@
                },
                ToastKind::Info,
            )
        }
    }
}

/// Whether opening recent folders makes `b` of `a`, and what is left to do.
pub open spec fn opens_recent(a: App, r: FolderStep, b: App) -> bool {
    let s = a.recent@;
    let ready = picked(s.folders, s.ready());
    let all = wanted_folders(s);
    if s.folders.len() == 0 {
        b == a && r is Nothing
    } else if ready.len() == 0 && s.disabled[s.cursor] {
        &&& b == (App { toast: b.toast, ..a })
        &&& b.tells("That folder is already open"@, ToastKind::Info)
        &&& r is Nothing
    } else {
        &&& leaves_recents(a, b)
        &&& if a.root is Some {
            &&& r matches FolderStep::Windows(f) && texts(f@) == all
            &&& b.tells(
                "Opened "@ + decimal(all.len()) + " window(s)"@,
                ToastKind::Success,
            )
        } else {
            &&& r matches FolderStep::Here { first, others } && first@ == all[0]
                && texts(others@) == all.skip(1)
            &&& if all.len() > 1 {
                b.tells(
                    "Opened +"@ + decimal((all.len() - 1) as nat) + " window(s)"@,
                    ToastKind::Success,
                )
            } else {
                b.toast == a.toast
            }
        }
    }
}

/// Whether moving between the settings makes `b` of `a`.
pub open spec fn moves_focus(a: App, delta: i32, b: App) -> bool {
    &&& b == (App { settings: b.settings, ..a })
    &&& b.settings@ == (SettingsState {
        focus: stepped(a.settings@.focus, delta as int, SETTINGS_SECTIONS as int),
        ..a.settings@
    })
}

/// Whether changing a setting makes `b` of `a`.
pub open spec fn adjusts(a: App, delta: i32, b: App) -> bool {
    &&& b == (App {
        settings: b.settings,
        settings_write: b.settings_write,
        ..a
    })
    &&& b.settings@ == a.settings@.adjusted(delta as int)
    &&& b.settings_write == if a.settings_write
        == SettingsWrite::Announced {
        SettingsWrite::Announced
    } else {
        SettingsWrite::Quiet
    }
}

/// Whether turning word wrap on or off makes `b` of `a`.
pub open spec fn toggles_wrap(a: App, b: App) -> bool {
    &&& b == (App {
        settings: b.settings,
        settings_write: b.settings_write,
        ..a
    })
    &&& b.settings@ == (SettingsState {
        word_wrap: !a.settings@.word_wrap,
        ..a.settings@
    })
    &&& b.settings_write == if a.settings_write
        == SettingsWrite::Announced {
        SettingsWrite::Announced
    } else {
        SettingsWrite::Quiet
    }
}

} // verus!
