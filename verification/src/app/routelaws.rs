//! Where keys and presses go, and what fields do with the clipboard.

use crate::app::acting::{acts, KeyStep};
use crate::app::browsing::lists_for;
use crate::app::editing::{adds_caret_above, adds_caret_below, adds_occurrence};
use crate::app::finding::{copies, find_edited, replacement_edited, searches};
use crate::app::mouse::{presses, presses_list, presses_shell, PointerStep};
use crate::app::pointer::presses_editor;
use crate::app::prompting::prompt_edited;
use crate::app::searching::{asks, search_edited};
use crate::app::{App, Pointer};
use crate::buffer::selectlaws::{adds_caret_on, law_carets_are_added_on_the_next_line};
use crate::buffer::state::{furthest, nearest, CaretAt};
use crate::dialog::Dialog;
use crate::editline::{Edit, Field};
use crate::hits::Clicks;
use crate::input::actions::KeyAction;
use crate::keyevent::KeyEvent;
use crate::lines::{col_of, line_of, line_total};
use vstd::prelude::*;

verus! {

/// The column that a caret is in or aims for, whichever is further right.
pub open spec fn aimed_col(s: Seq<char>, c: CaretAt) -> int {
    if c.goal_col > col_of(s, c.cursor) {
        c.goal_col
    } else {
        col_of(s, c.cursor)
    }
}

/// The key that adds a caret below adds it one line below the lowest caret, and the
/// one that adds a caret above one line above the highest, in the column of that
/// caret; at the ends of the text they add none.
pub proof fn law_carets_are_added_above_and_below(a: App, b: App, low: CaretAt, high: CaretAt)
    requires
        a.wf(),
        a.shown() is Some,
        a.shown()->0.has_caret(low),
        a.shown()->0.has_caret(high),
        forall|c: CaretAt| #[trigger]
            a.shown()->0.has_caret(c) ==> high.cursor <= c.cursor <= low.cursor,
    ensures
        ({
            let s = a.shown()->0;
            let down = line_of(s.text, low.cursor) + 1;
            let up = line_of(s.text, high.cursor) - 1;
            &&& adds_caret_below(a, b) && down < line_total(s.text) ==> b.shown() is Some
                && adds_caret_on(s, down, aimed_col(s.text, low), b.shown()->0)
            &&& adds_caret_above(a, b) && up >= 0 ==> b.shown() is Some && adds_caret_on(
                s,
                up,
                aimed_col(s.text, high),
                b.shown()->0,
            )
            &&& adds_caret_below(a, b) && down >= line_total(s.text) ==> b.tabs@ == a.tabs@
            &&& adds_caret_above(a, b) && up < 0 ==> b.tabs@ == a.tabs@
        }),
{
    let s = a.shown()->0;
    let i = a.tabs@.active->0;
    assert(s == a.tabs.editors@[i]@);
    assert(s.wf());
    assert forall|k: int| 0 <= k < s.carets.len() implies 0 <= (
    #[trigger] s.carets[k]).goal_col by {
        assert(s.carets[k] == a.tabs.editors@[i].carets@[k]@);
    }
    law_carets_are_added_on_the_next_line(s);
    let far = furthest(s.flagged());
    let near = nearest(s.flagged());
    lemma_same_place(s, far, low);
    lemma_same_place(s, near, high);
    assert(a.tabs@.editors.update(i, s) =~= a.tabs@.editors);
}

/// No two carets stand at one place.
proof fn lemma_same_place(s: crate::buffer::state::BufferState, c: CaretAt, d: CaretAt)
    requires
        s.wf(),
        s.has_caret(c),
        s.has_caret(d),
    ensures
        c.cursor == d.cursor ==> c == d,
{
    if c != s.primary() {
        let i = choose|i: int| 0 <= i < s.carets.len() && s.carets[i] == c;
        assert(s.carets[i].cursor != s.cursor);
        if d != s.primary() {
            let j = choose|j: int| 0 <= j < s.carets.len() && s.carets[j] == d;
            if i < j {
                assert(s.carets[i].cursor < s.carets[j].cursor);
            } else if j < i {
                assert(s.carets[j].cursor < s.carets[i].cursor);
            }
        }
    } else if d != s.primary() {
        let j = choose|j: int| 0 <= j < s.carets.len() && s.carets[j] == d;
        assert(s.carets[j].cursor != s.cursor);
    }
}

/// The actions that add carets are these.
pub proof fn law_caret_keys_add_carets(
    a: App,
    key: KeyEvent,
    system: Option<String>,
    r: KeyStep,
    b: App,
)
    requires
        r is Done,
    ensures
        acts(a, KeyAction::AddCaretAbove, key, system, r, b) ==> adds_caret_above(a, b),
        acts(a, KeyAction::AddCaretBelow, key, system, r, b) ==> adds_caret_below(a, b),
        acts(a, KeyAction::AddNextOccurrence, key, system, r, b) ==> adds_occurrence(a, b),
        adds_occurrence(a, b) ==> (a.shown() matches Some(s) ==> b.tabs@ == a.tabs@.with_current(
            s.next_occurrence_added(),
        )),
{
}

/// A key that changed the query of the find bar searches for the new one; copying
/// puts what is selected in it on the clipboard, cutting takes it out besides, and
/// pasting types what the clipboard holds and searches for that. A movement in the
/// query searches for nothing.
pub proof fn law_the_query_of_the_find_bar_is_edited(a: App, q: Field, t: Seq<char>, b: App)
    requires
        t.len() > 0,
    ensures
        find_edited(a, q, Edit::Changed, t, b) ==> searches(a, q, b),
        find_edited(a, q, Edit::Moved, t, b) ==> b.find@.query == q && b.tabs == a.tabs
            && b.clipboard_text == a.clipboard_text,
        find_edited(a, q, Edit::Copy, t, b) && q.selecting() ==> Some(b.clipboard_text@)
            == q.selection_text() && b.find@.query == q,
        find_edited(a, q, Edit::Cut, t, b) && q.selecting() ==> Some(b.clipboard_text@)
            == q.selection_text() && b.find@.query.text == q.cut().text,
        find_edited(a, q, Edit::Paste, t, b) ==> searches(a, q.typed(t), b),
{
}

/// The same of the replacement, which is never searched for.
pub proof fn law_the_replacement_is_edited(a: App, q: Field, t: Seq<char>, b: App)
    requires
        t.len() > 0,
    ensures
        replacement_edited(a, q, Edit::Changed, t, b) ==> b.find@.replace == q && b.tabs == a.tabs,
        replacement_edited(a, q, Edit::Copy, t, b) && q.selecting() ==> Some(b.clipboard_text@)
            == q.selection_text() && b.find@.replace == q,
        replacement_edited(a, q, Edit::Cut, t, b) && q.selecting() ==> Some(b.clipboard_text@)
            == q.selection_text() && b.find@.replace == q.cut(),
        replacement_edited(a, q, Edit::Paste, t, b) ==> b.find@.replace == q.typed(t),
        replacement_edited(a, q, Edit::Paste, t, b) ==> b.find@.matches == a.find@.matches,
{
}

/// The same of the name that a question asks for.
pub proof fn law_the_name_in_a_question_is_edited(a: App, q: Field, t: Seq<char>, b: App)
    requires
        t.len() > 0,
    ensures
        prompt_edited(a, q, Edit::Changed, t, b) ==> b.prompt@.input == q && b.prompt@.asks
            == a.prompt@.asks && b.prompt@.target == a.prompt@.target,
        prompt_edited(a, q, Edit::Copy, t, b) && q.selecting() ==> Some(b.clipboard_text@)
            == q.selection_text() && b.prompt@.input == q,
        prompt_edited(a, q, Edit::Cut, t, b) && q.selecting() ==> Some(b.clipboard_text@)
            == q.selection_text() && b.prompt@.input == q.cut(),
        prompt_edited(a, q, Edit::Paste, t, b) ==> b.prompt@.input == q.typed(t),
{
}

/// The same of the query of the search in files, which is searched for once it
/// rests.
pub proof fn law_the_query_of_the_search_is_edited(a: App, q: Field, t: Seq<char>, b: App)
    requires
        t.len() > 0,
    ensures
        search_edited(a, q, Edit::Changed, t, b) ==> asks(a, q, b),
        search_edited(a, q, Edit::Moved, t, b) ==> b.search@.query == q && b.search@.results
            == a.search@.results,
        search_edited(a, q, Edit::Copy, t, b) && q.selecting() ==> Some(b.clipboard_text@)
            == q.selection_text() && b.search@.results == a.search@.results,
        search_edited(a, q, Edit::Cut, t, b) && q.selecting() ==> Some(b.clipboard_text@)
            == q.selection_text() && b.search@.query.text == q.cut().text,
        search_edited(a, q, Edit::Paste, t, b) ==> asks(a, q.typed(t), b),
{
}

/// What is copied is on the clipboard, and the clipboard of the system gets it.
pub proof fn law_copying_fills_the_clipboard(a: App, t: Seq<char>, b: App)
    ensures
        copies(a, Some(t), b) ==> b.clipboard_text@ == t && b.clipboard_dirty && b.tabs == a.tabs,
        copies(a, None, b) ==> b == a,
{
}

/// While something is typed in the file dialog, the best match is selected.
pub proof fn law_the_best_match_is_selected(a: App, q: Field, b: App)
    requires
        lists_for(a, q, b),
        q.text.len() > 0,
    ensures
        b.file_dialog.selected == 0,
        b.file_dialog.query@ == q.text,
        b.tabs == a.tabs,
{
}

/// A press goes to the dialog that has the focus: to the list of files, to the
/// terminals, and to the text with no dialog open. The clicks are counted first.
pub proof fn law_presses_go_where_the_focus_is(
    a: App,
    col: u16,
    row: u16,
    shift: bool,
    alt: bool,
    r: PointerStep,
    b: App,
)
    requires
        presses(a, col, row, shift, alt, r, b),
    ensures
        ({
            let clicks = Clicks {
                last: Some((a.now, col, row)),
                count: a.pointer.clicks.with_press(a.now, col, row) as u8,
            };
            let m = App { pointer: Pointer { clicks, ..a.pointer }, ..a };
            let n = App { pointer: Pointer { to_program: false, ..m.pointer }, ..m };
            let top = if a.dialogs@.len() > 0 {
                Some(a.dialogs@.last())
            } else {
                None
            };
            &&& top == Some(Dialog::Files) && !a.prompt.active ==> (r matches PointerStep::Browse(s)
                && presses_list(m, col, row, s, b))
            &&& top == Some(Dialog::Terminal) ==> (r matches PointerStep::Terminal(s)
                && presses_shell(m, col, row, shift, s, b))
            &&& top is None ==> (r matches PointerStep::Browse(s) && presses_editor(
                n,
                col,
                row,
                alt,
                s,
                b,
            ))
        }),
{
}

} // verus!
