//! Opening and closing dialogs.

use crate::app::{App, SettingsWrite};
use crate::dialog::{dismiss, dismissed, raise, raised, stack_ok, top_of, Dialog};
use crate::filedialog::texts;
use crate::recent::RecentState;
use crate::search::SearchState;
use crate::settings::SettingsState;
use crate::terminals::TerminalsState;
use crate::toast::ToastKind;
use vstd::prelude::*;
use vstd::string::*;

verus! {

/// What a dialog that was just opened still needs.
#[derive(Debug, Clone, Copy, PartialEq, Eq, Structural)]
pub enum Needs {
    Nothing,
    /// The files of the open folder.
    Files,
    /// The recent folders.
    Recents,
    /// A terminal.
    Terminal,
}

/// Whether `b` is `a` without the dialog `d`.
pub open spec fn dismisses(a: App, d: Dialog, b: App) -> bool {
    &&& b.dialogs@ == dismissed(a.dialogs@, d)
    &&& if a.dialogs@.contains(d) {
        torn_down(a, b, set![d])
    } else {
        b == a
    }
}

/// Whether `b` is `a` after the dialogs of `gone` were cleaned up. Only what
/// belongs to them changed.
pub open spec fn torn_down(a: App, b: App, gone: Set<Dialog>) -> bool {
    &&& b == App {
        dialogs: b.dialogs,
        file_dialog: b.file_dialog,
        scope: b.scope,
        recent: b.recent,
        settings: b.settings,
        settings_write: b.settings_write,
        terminals: b.terminals,
        picker: b.picker,
        help_scroll: b.help_scroll,
        search: b.search,
        ..a
    }
    &&& if gone.contains(Dialog::Files) {
        !b.file_dialog.active && b.file_dialog.blank() && b.file_dialog.same_cache(&a.file_dialog)
            && b.scope is None
    } else {
        b.file_dialog == a.file_dialog && b.scope == a.scope
    }
    &&& if gone.contains(Dialog::Recent) {
        b.recent@ == RecentState { open: false, ..a.recent@ }
    } else {
        b.recent == a.recent
    }
    &&& if gone.contains(Dialog::Settings) {
        b.settings@ == SettingsState { open: false, ..a.settings@ } && b.settings_write
            == SettingsWrite::Announced
    } else {
        b.settings == a.settings && b.settings_write == a.settings_write
    }
    &&& if gone.contains(Dialog::Terminal) {
        b.terminals@ == TerminalsState { modal: false, ..a.terminals@ }
    } else {
        b.terminals == a.terminals
    }
    &&& if gone.contains(Dialog::TerminalPicker) {
        b.picker.query@.len() == 0 && b.picker.matches == a.picker.matches && b.picker.selected
            == a.picker.selected
    } else {
        b.picker == a.picker
    }
    &&& b.help_scroll == if gone.contains(Dialog::Help) {
        0
    } else {
        a.help_scroll
    }
    &&& if gone.contains(Dialog::SearchFiles) {
        b.search@ == SearchState::blank(false)
    } else {
        b.search == a.search
    }
}

impl App {
    /// Clean up behind a dialog that left the stack.
    fn teardown_dialog(&mut self, d: Dialog)
        requires
            old(self).wf(),
        ensures
            torn_down(*old(self), *final(self), set![d]),
            final(self).dialogs == old(self).dialogs,
            final(self).wf(),
    {
        match d {
            Dialog::Files => {
                self.file_dialog.close();
                self.scope = None;
            },
            Dialog::Recent => {
                self.recent.open = false;
            },
            Dialog::Settings => {
                self.settings_write = SettingsWrite::Announced;
                self.settings.open = false;
            },
            Dialog::Terminal => {
                self.terminals.modal = false;
            },
            Dialog::TerminalPicker => {
                self.picker.query = String::new();
            },
            Dialog::Help => {
                self.help_scroll = 0;
            },
            Dialog::SearchFiles => {
                self.search.close();
            },
            Dialog::Todos => {},
            Dialog::Clipboard => {},
        }
    }

    /// Take `d` out of the stack wherever it is.
    pub fn dismiss_dialog(&mut self, d: Dialog)
        requires
            old(self).wf(),
        ensures
            dismisses(*old(self), d, *final(self)),
            final(self).wf(),
    {
        if dismiss(&mut self.dialogs, d) {
            self.teardown_dialog(d);
        }
    }

    /// Close the dialog that has the focus.
    pub fn close_top_dialog(&mut self)
        requires
            old(self).wf(),
        ensures
            closes_top(*old(self), *final(self)),
            final(self).wf(),
    {
        if self.dialogs.len() == 0 {
            return;
        }
        if let Some(d) = self.dialogs.pop() {
            assert(stack_ok(self.dialogs@));
            self.teardown_dialog(d);
        }
    }

    /// Close every dialog, so that the text is what shows.
    pub fn close_all_dialogs(&mut self)
        requires
            old(self).wf(),
        ensures
            final(self).dialogs@.len() == 0,
            torn_down(*old(self), *final(self), old(self).dialogs@.to_set()),
            final(self).wf(),
    {
        let ghost a = *self;
        let ghost all = self.dialogs@;
        assert(all.skip(all.len() as int).to_set() =~= Set::<Dialog>::empty());
        while self.dialogs.len() > 0
            invariant
                self.wf(),
                self.dialogs@.len() <= all.len(),
                self.dialogs@ == all.take(self.dialogs@.len() as int),
                torn_down(a, *self, all.skip(self.dialogs@.len() as int).to_set()),
            decreases self.dialogs.len(),
        {
            let ghost n = self.dialogs@.len() as int;
            let ghost before = all.skip(n).to_set();
            proof {
                let s = all.skip(n - 1);
                assert(all.take(n - 1) =~= all.take(n).drop_last());
                assert forall|e: Dialog| s.to_set().contains(e) == (before.contains(e) || e
                    == all[n - 1]) by {
                    assert(s[0] == all[n - 1]);
                    if before.contains(e) {
                        let k = all.skip(n).index_of(e);
                        assert(s[k + 1] == e);
                    }
                    if s.contains(e) {
                        let k = s.index_of(e);
                        if k > 0 {
                            assert(all.skip(n)[k - 1] == e);
                        }
                    }
                }
                assert(top_of(self.dialogs@) == Some(all[n - 1]));
            }
            self.close_top_dialog();
        }
        assert(all.skip(0) =~= all);
    }

    /// Open `d` and give it the focus. A dialog that is open already only comes
    /// to the top; another one starts afresh, and may need something more.
    pub fn open_dialog(&mut self, d: Dialog) -> (r: Needs)
        requires
            old(self).wf(),
        ensures
            opens_dialog(*old(self), d, r, *final(self)),
            final(self).wf(),
    {
        if raise(&mut self.dialogs, d) {
            return Needs::Nothing;
        }
        match d {
            Dialog::Files => Needs::Files,
            Dialog::Recent => Needs::Recents,
            Dialog::Settings => {
                self.settings.init_settings();
                Needs::Nothing
            },
            Dialog::Terminal => {
                self.terminals.modal = true;
                if self.terminals.list.len() == 0 {
                    Needs::Terminal
                } else {
                    Needs::Nothing
                }
            },
            Dialog::TerminalPicker => {
                self.picker.query = String::new();
                let labels = self.terminals.terminal_labels();
                proof {
                    crate::terminals::lemma_empty_query(texts(labels@));
                }
                self.picker.terminal_picker_refilter(&labels);
                Needs::Nothing
            },
            Dialog::Help => {
                self.help_scroll = 0;
                Needs::Nothing
            },
            Dialog::SearchFiles => {
                self.search.open();
                Needs::Nothing
            },
            Dialog::Todos => Needs::Nothing,
            Dialog::Clipboard => Needs::Nothing,
        }
    }

    /// Close `d` where it has the focus, else open it or bring it to the top.
    pub fn toggle_dialog(&mut self, d: Dialog) -> (r: Needs)
        requires
            old(self).wf(),
        ensures
            if top_of(old(self).dialogs@) == Some(d) {
                &&& final(self).dialogs@ == old(self).dialogs@.drop_last()
                &&& torn_down(*old(self), *final(self), set![d])
                &&& r == Needs::Nothing
            } else {
                opens_dialog(*old(self), d, r, *final(self))
            },
            final(self).wf(),
    {
        let top = match self.top_dialog() {
            Some(t) => t == d,
            None => false,
        };
        if top {
            self.close_top_dialog();
            Needs::Nothing
        } else {
            self.open_dialog(d)
        }
    }

    /// Open the recent folders.
    pub fn open_recent_dialog(&mut self) -> (r: Needs)
        requires
            old(self).wf(),
        ensures
            opens_recents(*old(self), r, *final(self)),
            final(self).wf(),
    {
        self.open_dialog(Dialog::Recent)
    }

    /// Open the settings.
    pub fn open_settings(&mut self)
        requires
            old(self).wf(),
        ensures
            opens_settings(*old(self), *final(self)),
            final(self).wf(),
    {
        self.open_dialog(Dialog::Settings);
    }

    /// Open the cheat sheet.
    pub fn open_help(&mut self)
        requires
            old(self).wf(),
        ensures
            opens_help(*old(self), *final(self)),
            final(self).wf(),
    {
        self.open_dialog(Dialog::Help);
    }

    /// Scroll the cheat sheet by `delta` rows, stopping at the top.
    pub fn help_scroll(&mut self, delta: i32)
        ensures
            scrolls_help(*old(self), delta, *final(self)),
    {
        let s: usize = self.help_scroll;
        if delta >= 0 {
            let d: usize = delta as usize;
            self.help_scroll = if s > usize::MAX - d {
                usize::MAX
            } else {
                s + d
            };
        } else {
            let d: usize = (0 - delta as i64) as usize;
            self.help_scroll = if s > d {
                s - d
            } else {
                0
            };
        }
    }

    /// Open the search across the project. It needs a folder.
    pub fn open_search_files(&mut self)
        requires
            old(self).wf(),
        ensures
            opens_search(*old(self), *final(self)),
            final(self).wf(),
    {
        if self.root.is_none() {
            self.notify("Open a folder first (\u{2325}O)".to_owned(), ToastKind::Info);
            return;
        }
        self.open_dialog(Dialog::SearchFiles);
    }

    /// Open the file dialog. It needs a folder.
    pub fn open_file_dialog(&mut self) -> (r: Needs)
        requires
            old(self).wf(),
        ensures
            opens_files(*old(self), r, *final(self)),
            final(self).wf(),
    {
        if self.root.is_none() {
            self.notify("Open a folder first (\u{2325}O)".to_owned(), ToastKind::Info);
            return Needs::Nothing;
        }
        self.open_dialog(Dialog::Files)
    }

    /// Open or close the terminals. They need a folder.
    pub fn toggle_terminal_modal(&mut self) -> (r: Needs)
        requires
            old(self).wf(),
        ensures
            toggles_terminal(*old(self), r, *final(self)),
            final(self).wf(),
    {
        if self.root.is_none() {
            self.notify("Open a folder first (\u{2325}O)".to_owned(), ToastKind::Info);
            return Needs::Nothing;
        }
        self.toggle_dialog(Dialog::Terminal)
    }

    /// Open the switcher between terminals. It needs more than one.
    pub fn open_terminal_picker(&mut self)
        requires
            old(self).wf(),
        ensures
            opens_picker(*old(self), *final(self)),
            final(self).wf(),
    {
        if self.terminals.list.len() > 1 {
            self.open_dialog(Dialog::TerminalPicker);
        } else {
            self.notify("Only one terminal open".to_owned(), ToastKind::Info);
        }
    }
}

/// The advice where a folder is needed.
pub open spec fn no_folder() -> Seq<char> {
    "Open a folder first (\u{2325}O)"@
}

/// Whether `b` is `a` after the dialog `d`, where there is one, was made ready.
pub open spec fn opened_afresh(a: App, b: App, d: Option<Dialog>) -> bool {
    &&& b == App {
        dialogs: b.dialogs,
        settings: b.settings,
        terminals: b.terminals,
        picker: b.picker,
        help_scroll: b.help_scroll,
        search: b.search,
        ..a
    }
    &&& if d == Some(Dialog::Settings) {
        b.settings@ == a.settings@.opened()
    } else {
        b.settings == a.settings
    }
    &&& if d == Some(Dialog::Terminal) {
        b.terminals@ == TerminalsState { modal: true, ..a.terminals@ }
    } else {
        b.terminals == a.terminals
    }
    &&& if d == Some(Dialog::TerminalPicker) {
        &&& b.picker.query@.len() == 0
        &&& crate::terminals::picker_lists(
            b.picker.matches@,
            crate::terminals::labels_of(a.terminals@.names()),
            Seq::empty(),
        )
        &&& b.picker.selected == 0
    } else {
        b.picker == a.picker
    }
    &&& b.help_scroll == if d == Some(Dialog::Help) {
        0
    } else {
        a.help_scroll
    }
    &&& if d == Some(Dialog::SearchFiles) {
        b.search@ == SearchState::blank(true)
    } else {
        b.search == a.search
    }
}

/// Whether closing the dialog that has the focus makes `b` of `a`.
pub open spec fn closes_top(a: App, b: App) -> bool {
    match top_of(a.dialogs@) {
        Some(d) => b.dialogs@ == a.dialogs@.drop_last() && torn_down(
            a,
            b,
            set![d],
        ),
        None => b == a,
    }
}

/// Whether opening a dialog, or raising it, makes `b` of `a`, and what it needs.
pub open spec fn opens_dialog(a: App, d: Dialog, r: Needs, b: App) -> bool {
    &&& b.dialogs@ == raised(a.dialogs@, d)
    &&& r == if a.dialogs@.contains(d) {
        Needs::Nothing
    } else if d == Dialog::Files {
        Needs::Files
    } else if d == Dialog::Recent {
        Needs::Recents
    } else if d == Dialog::Terminal && a.terminals@.list.len() == 0 {
        Needs::Terminal
    } else {
        Needs::Nothing
    }
    &&& opened_afresh(
        a,
        b,
        if a.dialogs@.contains(d) {
            None
        } else {
            Some(d)
        },
    )
}

/// Whether opening the recent folders makes `b` of `a`, and what that needs.
pub open spec fn opens_recents(a: App, r: Needs, b: App) -> bool {
    &&& b.dialogs@ == raised(a.dialogs@, Dialog::Recent)
    &&& b == (App { dialogs: b.dialogs, ..a })
    &&& r == if a.dialogs@.contains(Dialog::Recent) {
        Needs::Nothing
    } else {
        Needs::Recents
    }
}

/// Whether opening the settings makes `b` of `a`.
pub open spec fn opens_settings(a: App, b: App) -> bool {
    &&& b.dialogs@ == raised(a.dialogs@, Dialog::Settings)
    &&& b == (App {
        dialogs: b.dialogs,
        settings: b.settings,
        ..a
    })
    &&& b.settings@ == if a.dialogs@.contains(Dialog::Settings) {
        a.settings@
    } else {
        a.settings@.opened()
    }
}

/// Whether opening the cheat sheet makes `b` of `a`.
pub open spec fn opens_help(a: App, b: App) -> bool {
    &&& b.dialogs@ == raised(a.dialogs@, Dialog::Help)
    &&& b == (App {
        dialogs: b.dialogs,
        help_scroll: if a.dialogs@.contains(Dialog::Help) {
            a.help_scroll
        } else {
            0
        },
        ..a
    })
}

/// Whether scrolling the cheat sheet makes `b` of `a`.
pub open spec fn scrolls_help(a: App, delta: i32, b: App) -> bool {
    &&& b == (App { help_scroll: b.help_scroll, ..a })
    &&& b.help_scroll == if a.help_scroll + delta < 0 {
        0
    } else if a.help_scroll + delta > usize::MAX {
        usize::MAX as int
    } else {
        a.help_scroll + delta
    }
}

/// Whether opening the search in files makes `b` of `a`.
pub open spec fn opens_search(a: App, b: App) -> bool {
    &&& a.root is None ==> {
        &&& b == (App { toast: b.toast, ..a })
        &&& b.tells(no_folder(), ToastKind::Info)
    }
    &&& a.root is Some ==> {
        &&& b.dialogs@ == raised(a.dialogs@, Dialog::SearchFiles)
        &&& b == (App {
            dialogs: b.dialogs,
            search: b.search,
            ..a
        })
        &&& if a.dialogs@.contains(Dialog::SearchFiles) {
            b.search == a.search
        } else {
            b.search@ == SearchState::blank(true)
        }
    }
}

/// Whether opening the file dialog makes `b` of `a`, and what that needs.
pub open spec fn opens_files(a: App, r: Needs, b: App) -> bool {
    &&& a.root is None ==> {
        &&& b == (App { toast: b.toast, ..a })
        &&& b.tells(no_folder(), ToastKind::Info)
        &&& r == Needs::Nothing
    }
    &&& a.root is Some ==> {
        &&& b.dialogs@ == raised(a.dialogs@, Dialog::Files)
        &&& b == (App { dialogs: b.dialogs, ..a })
        &&& r == if a.dialogs@.contains(Dialog::Files) {
            Needs::Nothing
        } else {
            Needs::Files
        }
    }
}

/// Whether showing or hiding the terminals makes `b` of `a`, and what that needs.
pub open spec fn toggles_terminal(a: App, r: Needs, b: App) -> bool {
    &&& a.root is None ==> {
        &&& b == (App { toast: b.toast, ..a })
        &&& b.tells(no_folder(), ToastKind::Info)
        &&& r == Needs::Nothing
    }
    &&& a.root is Some ==> {
        &&& b == (App {
            dialogs: b.dialogs,
            terminals: b.terminals,
            ..a
        })
        &&& if top_of(a.dialogs@) == Some(Dialog::Terminal) {
            &&& b.dialogs@ == a.dialogs@.drop_last()
            &&& b.terminals@ == TerminalsState {
                modal: false,
                ..a.terminals@
            }
            &&& r == Needs::Nothing
        } else {
            &&& b.dialogs@ == raised(a.dialogs@, Dialog::Terminal)
            &&& b.terminals@ == TerminalsState {
                modal: a.terminals@.modal || !a.dialogs@.contains(
                    Dialog::Terminal,
                ),
                ..a.terminals@
            }
            &&& r == Needs::Terminal <==> !a.dialogs@.contains(Dialog::Terminal)
                && a.terminals@.list.len() == 0
        }
    }
}

/// Whether opening the terminal picker makes `b` of `a`.
pub open spec fn opens_picker(a: App, b: App) -> bool {
    &&& a.terminals@.list.len() <= 1 ==> {
        &&& b == (App { toast: b.toast, ..a })
        &&& b.tells("Only one terminal open"@, ToastKind::Info)
    }
    &&& a.terminals@.list.len() > 1 ==> {
        &&& b.dialogs@ == raised(a.dialogs@, Dialog::TerminalPicker)
        &&& opened_afresh(
            a,
            b,
            if a.dialogs@.contains(Dialog::TerminalPicker) {
                None
            } else {
                Some(Dialog::TerminalPicker)
            },
        )
    }
}

} // verus!
