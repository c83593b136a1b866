//! What holds of the row of tabs and of the row of terminals.

use crate::buffer::state::BufferState;
use crate::paths::same_path;
use crate::steps::law_a_step_goes_to_the_neighbour;
use crate::tabs::{tab_of, unsaved_from, TabsState};
use crate::terminals::{TerminalState, TerminalsState};
use vstd::prelude::*;

verus! {

/// The next tab is the one to the right, and behind the last comes the first; the
/// one before is the other way round. Turning changes nothing but which tab shows.
pub proof fn law_the_next_tab_is_to_the_right(s: TabsState)
    requires
        s.wf(),
        s.active is Some,
    ensures
        s.turned(1) == (TabsState { active: s.turned(1).active, ..s }),
        s.turned(-1) == (TabsState { active: s.turned(-1).active, ..s }),
        s.active->0 + 1 < s.editors.len() ==> s.turned(1).active == Some(s.active->0 + 1),
        s.active->0 + 1 == s.editors.len() ==> s.turned(1).active == Some(0int),
        s.active->0 > 0 ==> s.turned(-1).active == Some(s.active->0 - 1),
        s.active->0 == 0 ==> s.turned(-1).active == Some(s.editors.len() - 1),
{
    law_a_step_goes_to_the_neighbour(s.active->0, s.editors.len() as int);
}

/// Closing a tab takes it out of the row and leaves the others in order. What shows
/// next is the tab that was to the right of it, or the last one. Its file is the
/// one that was closed last.
pub proof fn law_closing_a_tab_shows_its_neighbour(s: TabsState, i: int)
    requires
        s.wf(),
        0 <= i < s.editors.len(),
    ensures
        ({
            let r = s.dropped(i);
            &&& r.editors.len() == s.editors.len() - 1
            &&& forall|k: int| 0 <= k < i ==> #[trigger] r.editors[k] == s.editors[k]
            &&& forall|k: int|
                i <= k < r.editors.len() ==> #[trigger] r.editors[k] == s.editors[k + 1]
            &&& r.editors.len() == 0 ==> r.active is None
            &&& i + 1 < s.editors.len() ==> r.current() == Some(s.editors[i + 1])
            &&& i + 1 == s.editors.len() && i > 0 ==> r.current() == Some(s.editors[i - 1])
            &&& s.editors[i].path matches Some(p) ==> r.closed.len() > 0 && r.closed.last() == p
            &&& s.editors[i].path is None ==> r.closed == s.closed
            &&& r.recent_files == s.recent_files
        }),
{
}

/// A tab that moves changes places with its neighbour and goes on showing; at the
/// end of the row it stays.
pub proof fn law_a_tab_moves_past_its_neighbour(s: TabsState)
    requires
        s.wf(),
        s.active is Some,
    ensures
        ({
            let i = s.active->0;
            let l = s.moved_left();
            let r = s.moved_right();
            &&& i == 0 ==> l == s
            &&& i > 0 ==> {
                &&& l.active == Some(i - 1)
                &&& l.editors[i - 1] == s.editors[i]
                &&& l.editors[i] == s.editors[i - 1]
                &&& forall|k: int|
                    0 <= k < s.editors.len() && k != i && k != i - 1 ==> #[trigger] l.editors[k]
                        == s.editors[k]
            }
            &&& i + 1 == s.editors.len() ==> r == s
            &&& i + 1 < s.editors.len() ==> {
                &&& r.active == Some(i + 1)
                &&& r.editors[i + 1] == s.editors[i]
                &&& r.editors[i] == s.editors[i + 1]
                &&& forall|k: int|
                    0 <= k < s.editors.len() && k != i && k != i + 1 ==> #[trigger] r.editors[k]
                        == s.editors[k]
            }
        }),
{
}

/// A tab that is dragged to another place stands there and shows, and the tabs
/// between close up.
pub proof fn law_a_dragged_tab_lands_where_it_is_dropped(s: TabsState, from: int, to: int)
    requires
        s.wf(),
        0 <= from < s.editors.len(),
        0 <= to < s.editors.len(),
        from != to,
    ensures
        ({
            let r = s.reordered(from, to);
            &&& r.active == Some(to)
            &&& r.editors.len() == s.editors.len()
            &&& r.editors[to] == s.editors[from]
            &&& forall|k: int|
                from < to && from <= k < to ==> #[trigger] r.editors[k] == s.editors[k + 1]
            &&& forall|k: int|
                to < from && to < k <= from ==> #[trigger] r.editors[k] == s.editors[k - 1]
            &&& forall|k: int|
                0 <= k < s.editors.len() && (k < from && k < to || k > from && k > to)
                    ==> #[trigger] r.editors[k] == s.editors[k]
        }),
{
}

/// A file that is opened gets a tab of its own behind the others, which shows; its
/// text and all other tabs stay as they are.
pub proof fn law_an_opened_file_shows_in_the_last_tab(s: TabsState, b: BufferState, now: u64)
    ensures
        ({
            let r = s.opened(b, now);
            &&& r.editors.len() == s.editors.len() + 1
            &&& r.active == Some(s.editors.len() as int)
            &&& r.editors.last().text == b.text
            &&& r.editors.last().path == b.path
            &&& r.editors.last().id == s.next_buffer_id
            &&& forall|k: int| 0 <= k < s.editors.len() ==> #[trigger] r.editors[k] == s.editors[k]
        }),
{
}

/// Saving a tab keeps its text, which is the saved one from then on, and leaves the
/// other tabs alone.
pub proof fn law_saving_keeps_the_text(
    s: TabsState,
    i: int,
    disk: Option<crate::buffer::state::DiskMeta>,
)
    requires
        0 <= i < s.editors.len(),
    ensures
        ({
            let r = s.saved(i, disk);
            &&& r.editors[i].text == s.editors[i].text
            &&& r.editors[i].saved == s.editors[i].text
            &&& !r.editors[i].modified
            &&& r.editors[i].undo == s.editors[i].undo
            &&& forall|k: int|
                0 <= k < s.editors.len() && k != i ==> #[trigger] r.editors[k] == s.editors[k]
        }),
{
}

proof fn lemma_unsaved(editors: Seq<BufferState>, i: int)
    requires
        0 <= i <= editors.len(),
        forall|k: int| 0 <= k < i ==> !(#[trigger] editors[k]).modified,
    ensures
        ({
            let r = unsaved_from(editors, i);
            if r < 0 {
                forall|k: int| 0 <= k < editors.len() ==> !(#[trigger] editors[k]).modified
            } else {
                &&& r < editors.len()
                &&& editors[r].modified
                &&& forall|k: int| 0 <= k < r ==> !(#[trigger] editors[k]).modified
            }
        }),
    decreases editors.len() - i,
{
    if i < editors.len() && !editors[i].modified {
        lemma_unsaved(editors, i + 1);
    }
}

/// The file that is asked about first is the first one with unsaved changes; there
/// is none only where every change is saved.
pub proof fn law_the_first_unsaved_file_is_found(editors: Seq<BufferState>)
    ensures
        ({
            let r = unsaved_from(editors, 0);
            if r < 0 {
                forall|k: int| 0 <= k < editors.len() ==> !(#[trigger] editors[k]).modified
            } else {
                &&& r < editors.len()
                &&& editors[r].modified
                &&& forall|k: int| 0 <= k < r ==> !(#[trigger] editors[k]).modified
            }
        }),
{
    lemma_unsaved(editors, 0);
}

proof fn lemma_tab_of(editors: Seq<BufferState>, path: Seq<char>, i: int)
    requires
        0 <= i <= editors.len(),
    ensures
        ({
            let r = tab_of(editors, path, i);
            if r < 0 {
                forall|k: int|
                    i <= k < editors.len() ==> !((#[trigger] editors[k]).path matches Some(p)
                        && same_path(p, path))
            } else {
                i <= r < editors.len() && (editors[r].path matches Some(p) && same_path(p, path))
            }
        }),
    decreases editors.len() - i,
{
    if i < editors.len() && !(editors[i].path matches Some(p) && same_path(p, path)) {
        lemma_tab_of(editors, path, i + 1);
    }
}

/// The tab of a file is one that shows it; there is none only where no tab does.
pub proof fn law_the_tab_of_a_file_shows_it(editors: Seq<BufferState>, path: Seq<char>)
    ensures
        ({
            let r = tab_of(editors, path, 0);
            if r < 0 {
                forall|k: int|
                    0 <= k < editors.len() ==> !((#[trigger] editors[k]).path matches Some(p)
                        && same_path(p, path))
            } else {
                0 <= r < editors.len() && (editors[r].path matches Some(p) && same_path(p, path))
            }
        }),
{
    lemma_tab_of(editors, path, 0);
}

/// A frame leaves the tabs as they are but for the view of the one that shows,
/// which follows its caret only where that moved, or another tab shows, since the
/// last frame.
pub proof fn law_a_frame_follows_a_moved_caret(s: TabsState, h: u16)
    requires
        s.wf(),
        s.active is Some,
        h > 0,
    ensures
        ({
            let i = s.active->0;
            let r = s.framed(h);
            let moved = s.last_cursor != Some((i, s.editors[i].cursor));
            &&& r.active == s.active
            &&& r.editors.len() == s.editors.len()
            &&& r.editors[i] == s.editors[i].followed(h as int, moved)
            &&& r.last_cursor == Some((i, s.editors[i].cursor))
            &&& forall|k: int|
                0 <= k < s.editors.len() && k != i ==> #[trigger] r.editors[k] == s.editors[k]
        }),
{
}

/// The next terminal is the one to the right, going round; the digits count the
/// terminals from one.
pub proof fn law_the_next_terminal_is_to_the_right(s: TerminalsState, n: int)
    requires
        s.wf(),
        s.list.len() > 0,
    ensures
        s.turned(1) == (TerminalsState { active: s.turned(1).active, ..s }),
        s.turned(-1) == (TerminalsState { active: s.turned(-1).active, ..s }),
        s.active + 1 < s.list.len() ==> s.turned(1).active == s.active + 1,
        s.active + 1 == s.list.len() ==> s.turned(1).active == 0,
        s.active > 0 ==> s.turned(-1).active == s.active - 1,
        s.active == 0 ==> s.turned(-1).active == s.list.len() - 1,
        1 <= n <= s.list.len() ==> s.jumped(n).current() == Some(s.list[n - 1]) && s.jumped(n).list
            == s.list,
        n < 1 || n > s.list.len() ==> s.jumped(n) == s,
{
    law_a_step_goes_to_the_neighbour(s.active, s.list.len() as int);
}

/// A new terminal opens to the right of the one that is showing, and shows; the
/// others stay in order.
pub proof fn law_a_new_terminal_opens_beside_the_active_one(s: TerminalsState, t: TerminalState)
    requires
        s.wf(),
    ensures
        ({
            let r = s.spawned(t);
            &&& r.list.len() == s.list.len() + 1
            &&& r.current() == Some(t)
            &&& r.modal
            &&& s.list.len() > 0 ==> r.active == s.active + 1
            &&& forall|k: int|
                0 <= k <= s.active && k < s.list.len() ==> #[trigger] r.list[k] == s.list[k]
            &&& forall|k: int|
                s.active + 1 < k < r.list.len() ==> #[trigger] r.list[k] == s.list[k - 1]
        }),
{
}

/// Closing a terminal takes exactly the one that is showing. What shows next is the
/// one that was to the right of it, or the last one; without one the terminals are
/// left.
pub proof fn law_closing_a_terminal_shows_its_neighbour(s: TerminalsState)
    requires
        s.wf(),
        s.list.len() > 0,
    ensures
        ({
            let r = s.closed();
            &&& r.list.len() == s.list.len() - 1
            &&& forall|k: int| 0 <= k < s.active ==> #[trigger] r.list[k] == s.list[k]
            &&& forall|k: int|
                s.active <= k < r.list.len() ==> #[trigger] r.list[k] == s.list[k + 1]
            &&& s.active + 1 < s.list.len() ==> r.current() == Some(s.list[s.active + 1])
            &&& s.active + 1 == s.list.len() && s.active > 0 ==> r.current() == Some(
                s.list[s.active - 1],
            )
            &&& s.list.len() == 1 ==> !r.modal
            &&& s.list.len() > 1 ==> r.modal == s.modal
        }),
{
}

/// A terminal that moves changes places with its neighbour and stays the active
/// one; at the end of the row it stays.
pub proof fn law_a_terminal_moves_past_its_neighbour(s: TerminalsState)
    requires
        s.wf(),
        s.list.len() > 0,
    ensures
        ({
            let i = s.active;
            let l = s.moved_left();
            let r = s.moved_right();
            &&& i == 0 ==> l == s
            &&& i > 0 ==> l.active == i - 1 && l.list[i - 1] == s.list[i] && l.list[i]
                == s.list[i - 1] && l.list.len() == s.list.len()
            &&& i + 1 == s.list.len() ==> r == s
            &&& i + 1 < s.list.len() ==> r.active == i + 1 && r.list[i + 1] == s.list[i]
                && r.list[i] == s.list[i + 1] && r.list.len() == s.list.len()
        }),
{
}

/// A terminal that is dragged to another place stands there and is the active one.
pub proof fn law_a_dragged_terminal_lands_where_it_is_dropped(
    s: TerminalsState,
    from: int,
    to: int,
)
    requires
        0 <= from < s.list.len(),
        0 <= to < s.list.len(),
    ensures
        ({
            let r = s.reordered(from, to);
            &&& r.list.len() == s.list.len()
            &&& r.list[to] == s.list[from]
            &&& from != to ==> r.active == to
            &&& forall|k: int|
                0 <= k < s.list.len() && (k < from && k < to || k > from && k > to)
                    ==> #[trigger] r.list[k] == s.list[k]
        }),
{
}

/// A file that was just read shows from its start, as it is on disk, with nothing
/// selected and nothing to undo. Its lines end as they do in the file: with a
/// carriage return before the line feed as soon as one does.
pub proof fn law_a_file_opens_as_it_is_on_disk(
    path: Option<Seq<char>>,
    text: Seq<char>,
    disk: Option<crate::buffer::state::DiskMeta>,
)
    ensures
        ({
            let b = crate::buffer::fresh(path, text, disk);
            &&& b.text == text && b.saved == text && !b.modified
            &&& b.path == path && b.disk == disk
            &&& b.cursor == 0 && b.anchor is None && b.carets.len() == 0 && b.scroll_row == 0
            &&& b.undo.len() == 0 && b.redo.len() == 0
            &&& (b.line_ending == crate::buffer::state::LineEnding::Crlf) == exists|i: int|
                0 <= i < text.len() - 1 && #[trigger] text[i] == '\r' && text[i + 1] == '\n'
        }),
{
}

} // verus!
