//! What the find bar does to the text that is showing.

use crate::app::acting::{acts, KeyStep};
use crate::app::finding::{
    goes_next, goes_prev, law_replacing_all_replaces_every_match, opens_find, replaces_all,
    replaces_one, searches,
};
use crate::app::App;
use crate::buffer::changes::{high, low};
use crate::buffer::state::{spliced, BufferState};
use crate::editline::Field;
use crate::find::{
    first_from, law_aiming_takes_the_first_match_behind, law_matches_are_the_occurrences,
    law_next_is_the_match_behind, matches_in, replaced_all,
};
use crate::input::actions::KeyAction;
use crate::keyevent::KeyEvent;
use vstd::prelude::*;

verus! {

/// Whether `s` is `b` with exactly the range `m` of its text selected by one caret.
pub open spec fn selects_match(b: BufferState, m: (int, int), s: BufferState) -> bool {
    &&& s.text == b.text
    &&& s.carets.len() == 0
    &&& s.anchor == Some(m.0)
    &&& s.cursor == m.1
    &&& s.undo == b.undo
    &&& s.modified == b.modified
}

/// Each key in the query searches the whole text anew. The match that starts at the
/// caret's place when the bar was opened, or first behind it, becomes the current
/// one and is selected; where none does, the first of the text.
pub proof fn law_searching_starts_from_the_caret(a: App, q: Field, b: App)
    requires
        a.wf(),
        a.shown() is Some,
        searches(a, q, b),
    ensures
        b.find@.matches == matches_in(a.shown()->0.text, b.find@.query.text),
        b.find@.query.text == q.text,
        b.find@.origin == a.find@.origin,
        b.find@.matches.len() > 0 ==> first_from(
            b.find@.matches,
            a.find@.origin,
            b.find@.current,
        ) && b.shown() is Some && selects_match(
            a.shown()->0,
            b.find@.matches[b.find@.current],
            b.shown()->0,
        ),
        b.find@.matches.len() == 0 ==> b.tabs@ == a.tabs@,
{
    let cur = a.shown()->0;
    let f = crate::find::FindState { query: q.clamped(), ..a.find@ }.searched(cur.text);
    law_aiming_takes_the_first_match_behind(f, f.origin);
    law_matches_are_the_occurrences(cur.text, f.query.text, 0);
    assert(b.find@.matches == f.matches);
}

/// Opening the bar remembers where the caret is, takes what is selected on one line
/// as the query, and selects the first match from the caret on.
pub proof fn law_the_find_bar_opens_at_the_caret(a: App, b: App)
    requires
        a.wf(),
        a.shown() is Some,
        opens_find(a, b),
    ensures
        b.find@.active,
        b.find@.origin == a.shown()->0.cursor,
        b.find@.matches == matches_in(a.shown()->0.text, b.find@.query.text),
        ({
            let s = a.shown()->0;
            let t = s.text.subrange(low(s.primary()), high(s.primary()));
            &&& s.carets.len() == 0 && low(s.primary()) < high(s.primary()) && !t.contains('\n')
                && s.selections_ok() ==> b.find@.query.text == t
            &&& s.carets.len() == 0 && low(s.primary()) == high(s.primary()) ==> b.find@.query.text
                == a.find@.query.text
        }),
        b.find@.matches.len() > 0 ==> first_from(
            b.find@.matches,
            a.shown()->0.cursor,
            b.find@.current,
        ) && b.shown() is Some && selects_match(
            a.shown()->0,
            b.find@.matches[b.find@.current],
            b.shown()->0,
        ),
{
    let cur = a.shown()->0;
    let f = a.find@.opened(cur).searched(cur.text);
    law_aiming_takes_the_first_match_behind(f, cur.cursor);
    law_matches_are_the_occurrences(cur.text, f.query.text, 0);
    assert(cur.wf());
}

/// The next match is the one behind the current one, and the match before the one
/// before it, going round; it is selected, and the text stays.
pub proof fn law_matches_are_walked_in_order(a: App, b: App)
    requires
        a.wf(),
        a.shown() is Some,
        a.find_is_current(),
        a.find@.matches.len() > 0,
        goes_next(a, b) || goes_prev(a, b),
    ensures
        b.find@.matches == a.find@.matches,
        goes_next(a, b) && a.find@.current + 1 < a.find@.matches.len() ==> b.find@.current
            == a.find@.current + 1,
        goes_next(a, b) && a.find@.current + 1 == a.find@.matches.len() ==> b.find@.current == 0,
        goes_prev(a, b) && a.find@.current > 0 ==> b.find@.current == a.find@.current - 1,
        goes_prev(a, b) && a.find@.current == 0 ==> b.find@.current == a.find@.matches.len() - 1,
        b.shown() is Some && selects_match(
            a.shown()->0,
            b.find@.matches[b.find@.current],
            b.shown()->0,
        ),
{
    law_next_is_the_match_behind(a.find@);
    law_matches_are_the_occurrences(a.shown()->0.text, a.find@.query.text, 0);
}

/// Replacing one match puts the replacement in the place of the current match and
/// changes nothing else in the text. Then the first match behind it is current.
pub proof fn law_replacing_one_replaces_the_current_match(a: App, b: App)
    requires
        a.wf(),
        a.shown() is Some,
        a.find_is_current(),
        a.find@.matches.len() > 0,
        replaces_one(a, b),
    ensures
        ({
            let s = a.shown()->0;
            let m = a.find@.matches[a.find@.current];
            let rep = a.find@.replace.text;
            &&& b.shown() is Some
            &&& b.shown()->0.text == s.text.take(m.0) + rep + s.text.skip(m.1)
            &&& b.find@.matches == matches_in(b.shown()->0.text, a.find@.query.text)
            &&& b.find@.matches.len() > 0 ==> first_from(
                b.find@.matches,
                m.0 + rep.len(),
                b.find@.current,
            )
        }),
{
    let cur = a.shown()->0;
    let (s, e) = a.find@.matches[a.find@.current];
    let rep = a.find@.replace.text;
    law_matches_are_the_occurrences(cur.text, a.find@.query.text, 0);
    let n = cur.text.len() as int;
    assert(0 <= s <= e <= n);
    let c = cur.selected(s, e).pasted(rep);
    lemma_typed_over(cur, s, e, rep);
    let f = a.find@.searched(c.text);
    law_aiming_takes_the_first_match_behind(f, c.cursor);
    assert(a.tabs@.with_current(c).current() == Some(c));
}

proof fn lemma_typed_over(b: BufferState, s: int, e: int, rep: Seq<char>)
    requires
        0 <= s <= e <= b.text.len(),
    ensures
        b.selected(s, e).pasted(rep).text == b.text.take(s) + rep + b.text.skip(e),
        b.selected(s, e).pasted(rep).cursor == s + rep.len(),
{
    let x = b.selected(s, e);
    let m = b.text.take(s) + b.text.skip(e);
    if s < e {
        assert(spliced(b.text, s, e, Seq::empty()) =~= m);
        assert(spliced(m, s, s, rep) =~= b.text.take(s) + rep + b.text.skip(e));
    }
}

/// Replacing all puts the replacement in the place of every match of the query and
/// changes nothing else in the text; the query is searched for anew.
pub proof fn law_replacing_all_leaves_the_rest(a: App, b: App)
    requires
        a.wf(),
        a.shown() is Some,
        a.find_is_current(),
        replaces_all(a, b),
    ensures
        b.shown() is Some,
        b.shown()->0.text == replaced_all(
            a.shown()->0.text,
            matches_in(a.shown()->0.text, a.find@.query.text),
            a.find@.replace.text,
        ),
        b.find@.matches == matches_in(b.shown()->0.text, a.find@.query.text),
{
    law_replacing_all_replaces_every_match(a);
}

/// The actions of the find bar are these: opening, going on and back, replacing one
/// and all, and closing, which leaves the text and the selection.
pub proof fn law_find_keys_act_on_the_find_bar(
    a: App,
    key: KeyEvent,
    system: Option<String>,
    r: KeyStep,
    b: App,
)
    requires
        r is Done,
    ensures
        acts(a, KeyAction::OpenFind, key, system, r, b) ==> opens_find(a, b),
        acts(a, KeyAction::FindNext, key, system, r, b) ==> goes_next(a, b),
        acts(a, KeyAction::FindPrev, key, system, r, b) ==> goes_prev(a, b),
        acts(a, KeyAction::ReplaceCurrent, key, system, r, b) ==> replaces_one(a, b),
        acts(a, KeyAction::ReplaceAll, key, system, r, b) ==> replaces_all(a, b),
        acts(a, KeyAction::CloseFind, key, system, r, b) ==> !b.find@.active && b.tabs == a.tabs
            && b.find@.matches.len() == 0 && b.find@.query.text.len() == 0
            && b.find@.replace.text.len() == 0,
        acts(a, KeyAction::ToggleReplace, key, system, r, b) ==> b.find@.replace_active
            == !a.find@.replace_active && b.find@.replace_focus == b.find@.replace_active
            && b.find@.query == a.find@.query && b.tabs == a.tabs,
        acts(a, KeyAction::ToggleFindFocus, key, system, r, b) && a.find@.replace_active
            ==> b.find@.replace_focus == !a.find@.replace_focus && b.tabs == a.tabs,
{
}

} // verus!
