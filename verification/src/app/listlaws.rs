//! What the lists do, what the keys know of what is open, and what is copied.

use crate::app::disk::{checked_from, checked_one, notes, Checked, Seen};
use crate::app::files::{after_saves, last_true, SaveOutcome};
use crate::app::folders::{
    adjusts, moves_focus, moves_recent, ticks_recent, toggles_wrap, wanted_folders,
};
use crate::app::showing::moves_picker;
use crate::app::terminal::{copies_terminal, picks_terminal, starts};
use crate::app::App;
use crate::buffer::state::BufferState;
use crate::dialog::Dialog;
use crate::paths::{leads_to, parent_path, relative_path};
use crate::prompt::PromptKind;
use crate::recent::RecentState;
use crate::settings::SettingsState;
use crate::steps::{law_a_step_goes_to_the_neighbour, law_picking_keeps_the_order, picked};
use crate::terminals::TerminalState;
use vstd::prelude::*;

verus! {

/// Up and Down go one row up and down in the list of terminals and in that of
/// recent folders, and from one setting to the next, going round.
pub proof fn law_lists_are_walked_row_by_row(a: App, b: App)
    requires
        a.wf(),
    ensures
        moves_picker(a, 1, b) && a.picker.matches@.len() > 0 ==> b.picker.selected
            == a.picker.selected + 1 || (a.picker.selected + 1 == a.picker.matches@.len()
            && b.picker.selected == 0),
        moves_picker(a, -1i32, b) && a.picker.matches@.len() > 0 ==> b.picker.selected
            == a.picker.selected - 1 || (a.picker.selected == 0 && b.picker.selected
            == a.picker.matches@.len() - 1),
        moves_recent(a, 1, b) && a.recent@.folders.len() > 0 ==> b.recent@ == (RecentState {
            cursor: b.recent@.cursor,
            ..a.recent@
        }) && (b.recent@.cursor == a.recent@.cursor + 1 || (a.recent@.cursor + 1
            == a.recent@.folders.len() && b.recent@.cursor == 0)),
        moves_recent(a, -1i32, b) && a.recent@.folders.len() > 0 ==> b.recent@.cursor
            == a.recent@.cursor - 1 || (a.recent@.cursor == 0 && b.recent@.cursor
            == a.recent@.folders.len() - 1),
        moves_focus(a, 1, b) ==> b.settings@ == (SettingsState {
            focus: b.settings@.focus,
            ..a.settings@
        }) && (b.settings@.focus == a.settings@.focus + 1 || (a.settings@.focus == 3
            && b.settings@.focus == 0)),
        moves_focus(a, -1i32, b) ==> b.settings@.focus == a.settings@.focus - 1 || (a.settings@.focus
            == 0 && b.settings@.focus == 3),
{
    if a.picker.matches@.len() > 0 {
        law_a_step_goes_to_the_neighbour(
            a.picker.selected as int,
            a.picker.matches@.len() as int,
        );
    }
    if a.recent@.folders.len() > 0 {
        law_a_step_goes_to_the_neighbour(a.recent@.cursor, a.recent@.folders.len() as int);
    }
    law_a_step_goes_to_the_neighbour(a.settings@.focus, 4);
}

/// Enter in the list of terminals shows the terminal that is picked and closes the
/// list; the terminals stay in their order.
pub proof fn law_the_picked_terminal_shows(a: App, b: App)
    requires
        a.wf(),
        picks_terminal(a, b),
        a.picker.selected < a.picker.matches@.len(),
        a.picker.matches@[a.picker.selected as int] < a.terminals@.list.len(),
    ensures
        b.terminals@.list == a.terminals@.list,
        b.terminals@.current() == Some(
            a.terminals@.list[a.picker.matches@[a.picker.selected as int] as int],
        ),
        b.tabs == a.tabs,
{
}

/// A space ticks the folder under the cursor or takes its tick, unless it is open;
/// no other tick changes.
pub proof fn law_a_space_ticks_the_folder(a: App, b: App)
    requires
        a.wf(),
        ticks_recent(a, b),
        a.recent@.folders.len() > 0,
    ensures
        ({
            let s = a.recent@;
            let t = b.recent@;
            &&& t.folders == s.folders && t.cursor == s.cursor
            &&& s.disabled[s.cursor] ==> t.checked == s.checked
            &&& !s.disabled[s.cursor] ==> t.checked[s.cursor] == !s.checked[s.cursor]
            &&& forall|k: int|
                0 <= k < s.checked.len() && k != s.cursor ==> #[trigger] t.checked[k]
                    == s.checked[k]
        }),
{
}

/// Opening recent folders opens the ticked ones that are not open yet, in the order
/// of the list, or the one under the cursor where there are none.
pub proof fn law_the_ticked_folders_are_opened(s: RecentState, i: int)
    requires
        s.wf(),
        0 <= i < s.folders.len(),
    ensures
        s.checked[i] && !s.disabled[i] ==> ({
            let k = picked(s.folders.take(i), s.ready()).len() as int;
            k < wanted_folders(s).len() && wanted_folders(s)[k] == s.folders[i]
        }),
        (forall|k: int| 0 <= k < s.folders.len() ==> !(#[trigger] s.checked[k] && !s.disabled[k]))
            ==> wanted_folders(s) == seq![s.folders[s.cursor]],
{
    law_picking_keeps_the_order(s.folders, s.ready());
    if s.checked[i] && !s.disabled[i] {
        assert(s.ready()(i));
    }
    if forall|k: int| 0 <= k < s.folders.len() ==> !(#[trigger] s.checked[k] && !s.disabled[k]) {
        assert forall|k: int| 0 <= k < s.folders.len() implies !#[trigger] s.ready()(k) by {
            assert(!(s.checked[k] && !s.disabled[k]));
        }
    }
}

/// Turning word wrap changes word wrap alone, and changing a setting changes the one
/// that has the focus; both are written down.
pub proof fn law_settings_change_one_at_a_time(a: App, d: i32, b: App)
    ensures
        toggles_wrap(a, b) ==> b.settings@ == (SettingsState {
            word_wrap: !a.settings@.word_wrap,
            ..a.settings@
        }) && b.tabs == a.tabs && b.settings_write != crate::app::SettingsWrite::No,
        adjusts(a, d, b) ==> b.settings@ == a.settings@.adjusted(d as int) && b.tabs == a.tabs
            && b.settings_write != crate::app::SettingsWrite::No,
{
}

/// What the keys depend on is what is open: the prompt and what it asks, the dialog
/// on top, the find bar, whether the file that shows has a selection, and the state
/// of the terminal that shows.
pub proof fn law_keys_know_what_is_open(a: App, todo_empty: bool)
    ensures
        ({
            let c = a.context(todo_empty);
            &&& c.prompt == a.prompt.active
            &&& c.asks == a.prompt.asks
            &&& a.dialogs@.len() == 0 ==> c.top is None
            &&& a.dialogs@.len() > 0 ==> c.top == Some(a.dialogs@.last())
            &&& c.find is Some == a.find.active
            &&& a.find.active ==> c.find->0.replacing == a.find.replace_active
                && c.find->0.replace_focus == a.find.replace_focus
            &&& c.editor is Some == a.shown() is Some
            &&& a.shown() matches Some(s) ==> c.editor->0.selecting == (s.anchor is Some
                && s.anchor->0 != s.cursor)
            &&& c.todo_empty == todo_empty
            &&& a.terminals@.current() matches Some(t) ==> c.copy_mode == t.copy_mode
                && c.alternate_screen == t.alternate_screen
            &&& a.terminals@.current() is None ==> !c.copy_mode && !c.alternate_screen
        }),
{
}

/// A path is copied whole, or relative to the open folder where that is asked for
/// and the path lies in it.
pub proof fn law_paths_are_copied_whole_or_relative(a: App, path: Seq<char>)
    ensures
        a.written_path(path, false) == path,
        a.root is None ==> a.written_path(path, true) == path,
        a.root matches Some(r) ==> {
            &&& leads_to(r@, path) ==> relative_path(r@, path) == Some(a.written_path(path, true))
            &&& !leads_to(r@, path) ==> a.written_path(path, true) == path
        },
{
}

/// New files and folders are made in the folder that is selected, or beside the file
/// that is.
pub proof fn law_new_files_go_where_the_selection_is(a: App)
    ensures
        a.pick() matches Some((p, is_dir)) ==> {
            &&& is_dir ==> a.base_dir() == p
            &&& !is_dir && parent_path(p) is Some ==> a.base_dir() == parent_path(p)->0
        },
        a.pick() is None && a.root is Some ==> a.base_dir() == a.root->0@,
{
}

/// What is selected in a terminal is copied unless it is blank; the terminal and the
/// text stay.
pub proof fn law_terminal_text_is_copied(a: App, t: String, b: App)
    requires
        copies_terminal(a, Some(t), b),
    ensures
        crate::text::trim_text(t@).len() > 0 ==> b.clipboard_text == t && b.clipboard_dirty,
        crate::text::trim_text(t@).len() == 0 ==> b == a,
        b.tabs == a.tabs && b.terminals == a.terminals,
{
}

/// A new terminal starts in its folder, shows, and has the focus.
pub proof fn law_a_new_terminal_has_the_focus(a: App, t: TerminalState, cwd: Seq<char>, b: App)
    requires
        a.wf(),
        starts(a, t, cwd, b),
    ensures
        b.terminals@.current() == Some(t),
        b.dialogs@.len() > 0 && b.dialogs@.last() == Dialog::Terminal,
        b.last_terminal_cwd is Some && b.last_terminal_cwd->0@ == cwd,
        b.tabs == a.tabs,
{
    let m = crate::dialog::dismissed(a.dialogs@, Dialog::Terminal);
    assert(m.push(Dialog::Terminal).last() == Dialog::Terminal);
}

proof fn lemma_last_true(v: Seq<bool>, n: int)
    requires
        0 <= n <= v.len(),
    ensures
        ({
            let k = last_true(v, n);
            &&& k >= 0 ==> k < n && v[k] && forall|j: int| k < j < n ==> !#[trigger] v[j]
            &&& k < 0 ==> forall|j: int| 0 <= j < n ==> !#[trigger] v[j]
        }),
    decreases n,
{
    if n > 0 && !v[n - 1] {
        lemma_last_true(v, n - 1);
    }
}

/// The file that opens again is the one closed last that is still there.
pub proof fn law_the_file_closed_last_opens_again(there: Seq<bool>)
    ensures
        ({
            let k = last_true(there, there.len() as int);
            &&& k >= 0 ==> k < there.len() && there[k] && forall|j: int|
                k < j < there.len() ==> !#[trigger] there[j]
            &&& k < 0 ==> forall|j: int| 0 <= j < there.len() ==> !#[trigger] there[j]
        }),
{
    lemma_last_true(there, there.len() as int);
}

/// Saving all keeps every text, and saves exactly the files with unsaved changes
/// that could be written.
pub proof fn law_saving_all_saves_what_changed(
    editors: Seq<BufferState>,
    o: Seq<SaveOutcome>,
    i: int,
)
    requires
        o.len() == editors.len(),
        0 <= i < editors.len(),
    ensures
        ({
            let r = after_saves(editors, o);
            &&& r.len() == editors.len()
            &&& r[i].text == editors[i].text
            &&& !editors[i].modified ==> r[i] == editors[i]
            &&& editors[i].modified && o[i] is Written ==> !r[i].modified && r[i].saved
                == editors[i].text
            &&& editors[i].modified && o[i] is Failed ==> r[i] == editors[i]
        }),
{
}

proof fn lemma_checked(c: Checked, seen: Seq<Seen>, i: int)
    requires
        0 <= i,
        c.editors.len() == seen.len(),
    ensures
        checked_from(c, seen, i).editors.len() == c.editors.len(),
        forall|k: int|
            0 <= k < i && k < c.editors.len() ==> #[trigger] checked_from(c, seen, i).editors[k]
                == c.editors[k],
        c.asked is None ==> (checked_from(c, seen, i).asked matches Some(a) ==> i <= a
            < seen.len()),
    decreases seen.len() - i,
{
    if i < seen.len() && c.asked is None {
        lemma_checked(checked_one(c, seen[i], i), seen, i + 1);
    }
}

/// The files are held against the disk one after the other, and the first that has
/// to be asked about ends it: no file before it is asked about.
pub proof fn law_one_file_is_asked_about_at_a_time(c: Checked, seen: Seq<Seen>)
    requires
        c.editors.len() == seen.len(),
        c.asked is None,
    ensures
        checked_from(c, seen, 0).editors.len() == c.editors.len(),
        checked_from(c, seen, 0).asked matches Some(a) ==> 0 <= a < seen.len(),
{
    lemma_checked(c, seen, 0);
}

/// What came of holding the files against the disk shows: the texts, the notice, and
/// the question about a file that changed in both places.
pub proof fn law_what_the_disk_says_is_shown(a: App, c: Checked, b: App)
    requires
        notes(a, c, b),
    ensures
        b.tabs@.editors == c.editors,
        b.tabs@.active == a.tabs@.active,
        c.asked is Some ==> b.prompt@.active && b.prompt@.asks == Some(PromptKind::ExternalChange),
        c.asked is None ==> b.prompt == a.prompt,
{
}

} // verus!
