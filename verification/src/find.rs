//! The find bar: where a query occurs in a text, and which match is current.

use crate::buffer::opt_text;
use crate::buffer::state::{occurs_at, spliced};
use crate::editline::{char_len, field, handle_key, Edit, Field, FieldRef};
use crate::keyevent::KeyEvent;
use crate::strings::chars_of;
use crate::text::{has_char, is_at, lower_chars, lowered};
use vstd::prelude::*;
use vstd::string::*;

verus! {

/// The find bar.
pub struct Find {
    pub active: bool,
    pub query: String,
    pub cursor: usize,
    pub anchor: Option<usize>,
    /// The matches as character ranges `[start, end)`.
    pub matches: Vec<(usize, usize)>,
    pub current: usize,
    /// Where the caret was when the bar was opened: refining the query keeps
    /// selecting the match that is nearest behind it.
    pub origin: usize,
    /// The replacement is showing.
    pub replace_active: bool,
    pub replace: String,
    pub replace_cursor: usize,
    pub replace_anchor: Option<usize>,
    /// Keys go to the replacement.
    pub replace_focus: bool,
}

/// The find bar as a mathematical value.
#[verifier::ext_equal]
pub struct FindState {
    pub active: bool,
    pub query: Field,
    pub matches: Seq<(int, int)>,
    pub current: int,
    pub origin: int,
    pub replace_active: bool,
    pub replace: Field,
    pub replace_focus: bool,
}

/// Ranges as pairs of numbers.
pub open spec fn ranges(v: Seq<(usize, usize)>) -> Seq<(int, int)> {
    Seq::new(v.len(), |i: int| (v[i].0 as int, v[i].1 as int))
}

impl View for Find {
    type V = FindState;

    open spec fn view(&self) -> FindState {
        FindState {
            active: self.active,
            query: field(self.query@, self.cursor, self.anchor),
            matches: ranges(self.matches@),
            current: self.current as int,
            origin: self.origin as int,
            replace_active: self.replace_active,
            replace: field(self.replace@, self.replace_cursor, self.replace_anchor),
            replace_focus: self.replace_focus,
        }
    }
}

/// The occurrences of `nee` in `hay` from `i` on, one behind the other: after
/// one, the search goes on behind it.
pub open spec fn matches_from(hay: Seq<char>, nee: Seq<char>, i: int) -> Seq<(int, int)>
    decreases hay.len() - i,
{
    if nee.len() == 0 || i < 0 || i + nee.len() > hay.len() {
        Seq::empty()
    } else if occurs_at(hay, nee, i) {
        seq![(i, i + nee.len())] + matches_from(hay, nee, i + nee.len())
    } else {
        matches_from(hay, nee, i + 1)
    }
}

/// The matches of a query in a text, whatever the case of ASCII letters.
pub open spec fn matches_in(text: Seq<char>, query: Seq<char>) -> Seq<(int, int)> {
    matches_from(lowered(text), lowered(query), 0)
}

/// The first match from `i` on that starts at or behind `pos`, or -1.
pub open spec fn first_behind(m: Seq<(int, int)>, pos: int, i: int) -> int
    decreases m.len() - i,
{
    if i >= m.len() {
        -1
    } else if m[i].0 >= pos {
        i
    } else {
        first_behind(m, pos, i + 1)
    }
}

/// The first match that starts at or behind `pos`, or the first of all.
pub open spec fn match_behind(m: Seq<(int, int)>, pos: int) -> int {
    let i = first_behind(m, pos, 0);
    if i < 0 {
        0
    } else {
        i
    }
}

impl FindState {
    /// The bar is closed and holds nothing.
    pub open spec fn closed(self) -> FindState {
        FindState {
            active: false,
            query: Field { text: Seq::empty(), cursor: 0, anchor: None },
            matches: Seq::empty(),
            current: 0,
            replace_active: false,
            replace: Field { text: Seq::empty(), cursor: 0, anchor: None },
            replace_focus: false,
            ..self
        }
    }

    /// Nothing was ever searched for.
    pub open spec fn fresh() -> FindState {
        FindState {
            active: false,
            query: Field { text: Seq::empty(), cursor: 0, anchor: None },
            matches: Seq::empty(),
            current: 0,
            origin: 0,
            replace_active: false,
            replace: Field { text: Seq::empty(), cursor: 0, anchor: None },
            replace_focus: false,
        }
    }

    /// The bar opened with the caret at `cursor`: what is selected becomes the
    /// query where it is on one line.
    pub open spec fn begun(self, cursor: int, selected: Option<Seq<char>>) -> FindState {
        let text = match selected {
            Some(t) => if t.len() > 0 && !t.contains('\n') {
                t
            } else {
                self.query.text
            },
            None => self.query.text,
        };
        FindState {
            active: true,
            origin: cursor,
            query: Field { text, cursor: text.len() as int, anchor: None },
            ..self
        }
    }

    /// The current match is one of the matches.
    pub open spec fn wf(self) -> bool {
        &&& 0 <= self.current
        &&& self.matches.len() > 0 ==> self.current < self.matches.len()
    }

    /// The query searched for in `text`, with the first match current.
    pub open spec fn searched(self, text: Seq<char>) -> FindState {
        FindState { matches: matches_in(text, self.query.text), current: 0, ..self }
    }

    /// The first match at or behind `pos` current.
    pub open spec fn aimed(self, pos: int) -> FindState {
        if self.matches.len() == 0 {
            self
        } else {
            FindState { current: match_behind(self.matches, pos), ..self }
        }
    }

    /// The next match current, going round.
    pub open spec fn next(self) -> FindState {
        if self.matches.len() == 0 {
            self
        } else {
            FindState { current: (self.current + 1) % (self.matches.len() as int), ..self }
        }
    }

    /// The match before current, going round.
    pub open spec fn prev(self) -> FindState {
        let n = self.matches.len() as int;
        if n == 0 {
            self
        } else {
            FindState { current: (self.current + n - 1) % n, ..self }
        }
    }

    /// The current match.
    pub open spec fn current_match(self) -> Option<(int, int)> {
        if 0 <= self.current < self.matches.len() {
            Some(self.matches[self.current])
        } else {
            None
        }
    }
}

/// The matches of a query in a text, one behind the other.
pub fn find_matches(hay: &Vec<char>, query: &str) -> (r: Vec<(usize, usize)>)
    ensures
        ranges(r@) == matches_in(hay@, query@),
{
    let q = chars_of(query);
    let needle = lower_chars(&q);
    let hay = lower_chars(hay);
    let n: usize = needle.len();
    let mut out: Vec<(usize, usize)> = Vec::new();
    if n == 0 {
        assert(ranges(out@) =~= Seq::empty());
        return out;
    }
    let mut i: usize = 0;
    assert(ranges(out@) + matches_from(hay@, needle@, 0) =~= matches_from(hay@, needle@, 0));
    while i <= hay.len() && n <= hay.len() - i
        invariant
            n == needle@.len(),
            n > 0,
            i <= hay@.len(),
            ranges(out@) + matches_from(hay@, needle@, i as int) == matches_from(
                hay@,
                needle@,
                0,
            ),
        decreases hay.len() - i,
    {
        if is_at(&hay, &needle, i) {
            let ghost before = ranges(out@);
            out.push((i, i + n));
            proof {
                assert(ranges(out@) =~= before.push((i as int, i + n)));
                assert(before.push((i as int, i + n)) + matches_from(hay@, needle@, i + n)
                    =~= before + (seq![(i as int, i + n)] + matches_from(hay@, needle@, i + n)));
            }
            i = i + n;
        } else {
            i = i + 1;
        }
    }
    assert(ranges(out@) + matches_from(hay@, needle@, i as int) =~= ranges(out@));
    out
}

impl Default for Find {
    fn default() -> (r: Find)
        ensures
            r@ == FindState::fresh(),
            r@.wf(),
    {
        let r = Find {
            active: false,
            query: String::new(),
            cursor: 0,
            anchor: None,
            matches: Vec::new(),
            current: 0,
            origin: 0,
            replace_active: false,
            replace: String::new(),
            replace_cursor: 0,
            replace_anchor: None,
            replace_focus: false,
        };
        assert(r@ =~= FindState::fresh());
        r
    }
}

impl Find {
    /// Close the bar.
    pub fn find_close(&mut self)
        ensures
            final(self)@ == old(self)@.closed(),
            final(self)@.wf(),
    {
        self.active = false;
        self.query = String::new();
        self.cursor = 0;
        self.anchor = None;
        self.matches = Vec::new();
        self.current = 0;
        self.replace_active = false;
        self.replace = String::new();
        self.replace_cursor = 0;
        self.replace_anchor = None;
        self.replace_focus = false;
        assert(self@ =~= old(self)@.closed());
    }

    /// Show or hide the replacement. Showing it gives it the keys; hiding it
    /// gives them back to the query.
    pub fn find_toggle_replace(&mut self)
        ensures
            final(self)@ == (FindState {
                replace_active: !old(self)@.replace_active,
                replace_focus: !old(self)@.replace_active,
                ..old(self)@
            }),
    {
        self.replace_active = !self.replace_active;
        self.replace_focus = self.replace_active;
    }

    /// Swap the keys between the query and the replacement, where that shows.
    pub fn find_toggle_focus(&mut self)
        ensures
            final(self)@ == (FindState {
                replace_focus: if old(self)@.replace_active {
                    !old(self)@.replace_focus
                } else {
                    old(self)@.replace_focus
                },
                ..old(self)@
            }),
    {
        if self.replace_active {
            self.replace_focus = !self.replace_focus;
        }
    }

    /// Open the bar with the caret at `cursor`.
    pub fn begin(&mut self, cursor: usize, selected: Option<String>)
        requires
            old(self)@.wf(),
        ensures
            final(self)@ == old(self)@.begun(cursor as int, opt_text(selected)),
            final(self)@.wf(),
    {
        self.active = true;
        self.origin = cursor;
        if let Some(text) = selected {
            if char_len(text.as_str()) > 0 && !has_char(text.as_str(), '\n') {
                self.query = text;
            }
        }
        self.cursor = char_len(self.query.as_str());
        self.anchor = None;
    }

    /// A key in the query.
    pub fn edit_query(&mut self, key: KeyEvent, ctrl: bool, alt: bool, shift: bool) -> (r: Edit)
        requires
            old(self)@.wf(),
            old(self).cursor < usize::MAX,
        ensures
            final(self)@ == (FindState {
                query: old(self)@.query.after_key(key.code, ctrl, alt, shift).0,
                ..old(self)@
            }),
            r == old(self)@.query.after_key(key.code, ctrl, alt, shift).1,
            final(self)@.wf(),
    {
        handle_key(
            FieldRef {
                text: &mut self.query,
                cursor: &mut self.cursor,
                anchor: &mut self.anchor,
            },
            key,
            ctrl,
            alt,
            shift,
        )
    }

    /// A key in the replacement.
    pub fn edit_replacement(&mut self, key: KeyEvent, ctrl: bool, alt: bool, shift: bool) -> (r:
        Edit)
        requires
            old(self)@.wf(),
            old(self).replace_cursor < usize::MAX,
        ensures
            final(self)@ == (FindState {
                replace: old(self)@.replace.after_key(key.code, ctrl, alt, shift).0,
                ..old(self)@
            }),
            r == old(self)@.replace.after_key(key.code, ctrl, alt, shift).1,
            final(self)@.wf(),
    {
        handle_key(
            FieldRef {
                text: &mut self.replace,
                cursor: &mut self.replace_cursor,
                anchor: &mut self.replace_anchor,
            },
            key,
            ctrl,
            alt,
            shift,
        )
    }

    /// Search `text` for the query.
    pub fn recompute_find(&mut self, text: &Vec<char>)
        ensures
            final(self)@ == old(self)@.searched(text@),
            final(self)@.wf(),
    {
        self.matches = find_matches(text, self.query.as_str());
        self.current = 0;
    }

    /// Make the first match at or behind `pos` the current one.
    pub fn aim(&mut self, pos: usize)
        requires
            old(self)@.wf(),
        ensures
            final(self)@ == old(self)@.aimed(pos as int),
            final(self)@.wf(),
    {
        if self.matches.len() == 0 {
            return;
        }
        let mut i: usize = 0;
        while i < self.matches.len()
            invariant
                i <= self.matches@.len(),
                self@ == old(self)@,
                self.matches@.len() > 0,
                first_behind(self@.matches, pos as int, 0) == first_behind(
                    self@.matches,
                    pos as int,
                    i as int,
                ),
            decreases self.matches.len() - i,
        {
            if self.matches[i].0 >= pos {
                self.current = i;
                return;
            }
            i = i + 1;
        }
        self.current = 0;
    }

    /// Go to the next match.
    pub fn go_next(&mut self)
        requires
            old(self)@.wf(),
        ensures
            final(self)@ == old(self)@.next(),
            final(self)@.wf(),
    {
        let n: usize = self.matches.len();
        if n == 0 {
            return;
        }
        proof {
            if self.current + 1 < n {
                vstd::arithmetic::div_mod::lemma_small_mod((self.current + 1) as nat, n as nat);
            } else {
                vstd::arithmetic::div_mod::lemma_mod_self_0(n as int);
            }
        }
        self.current = if self.current + 1 == n {
            0
        } else {
            self.current + 1
        };
    }

    /// Go to the match before.
    pub fn go_prev(&mut self)
        requires
            old(self)@.wf(),
        ensures
            final(self)@ == old(self)@.prev(),
            final(self)@.wf(),
    {
        let n: usize = self.matches.len();
        if n == 0 {
            return;
        }
        proof {
            vstd::arithmetic::div_mod::lemma_mod_add_multiples_vanish(self.current - 1, n as int);
            if self.current > 0 {
                vstd::arithmetic::div_mod::lemma_small_mod((self.current - 1) as nat, n as nat);
            } else {
                vstd::arithmetic::div_mod::lemma_small_mod((n - 1) as nat, n as nat);
            }
        }
        self.current = if self.current == 0 {
            n - 1
        } else {
            self.current - 1
        };
    }
}

/// `text` with the ranges `m` replaced by `rep`, the later ranges first.
pub open spec fn replaced_all(text: Seq<char>, m: Seq<(int, int)>, rep: Seq<char>) -> Seq<char>
    decreases m.len(),
{
    if m.len() == 0 {
        text
    } else {
        replaced_all(spliced(text, m.last().0, m.last().1, rep), m.drop_last(), rep)
    }
}

/// Ranges in order, apart from each other, and in a text of `len` characters.
pub open spec fn apart_in(m: Seq<(int, int)>, len: int) -> bool {
    &&& forall|i: int| 0 <= i < m.len() ==> 0 <= (#[trigger] m[i]).0 <= m[i].1 <= len
    &&& forall|i: int, j: int| 0 <= i < j < m.len() ==> (#[trigger] m[i]).1 <= (#[trigger] m[j]).0
}

proof fn lemma_matches_from(hay: Seq<char>, nee: Seq<char>, i: int)
    requires
        0 <= i,
    ensures
        forall|k: int|
            0 <= k < matches_from(hay, nee, i).len() ==> ({
                let m = #[trigger] matches_from(hay, nee, i)[k];
                occurs_at(hay, nee, m.0) && m.1 == m.0 + nee.len() && m.0 >= i
            }),
        forall|a: int, b: int|
            0 <= a < b < matches_from(hay, nee, i).len() ==> (#[trigger] matches_from(
                hay,
                nee,
                i,
            )[a]).1 <= (#[trigger] matches_from(hay, nee, i)[b]).0,
    decreases hay.len() - i,
{
    let all = matches_from(hay, nee, i);
    if nee.len() == 0 || i + nee.len() > hay.len() {
        assert(all.len() == 0);
    } else if occurs_at(hay, nee, i) {
        let rest = matches_from(hay, nee, i + nee.len());
        lemma_matches_from(hay, nee, i + nee.len());
        assert forall|k: int| 0 <= k < all.len() implies ({
            let m = #[trigger] all[k];
            occurs_at(hay, nee, m.0) && m.1 == m.0 + nee.len() && m.0 >= i
        }) by {
            if k > 0 {
                assert(all[k] == rest[k - 1]);
            }
        }
        assert forall|a: int, b: int| 0 <= a < b < all.len() implies (#[trigger] all[a]).1 <= (
        #[trigger] all[b]).0 by {
            assert(all[b] == rest[b - 1]);
            if a > 0 {
                assert(all[a] == rest[a - 1]);
            }
        }
    } else {
        let rest = matches_from(hay, nee, i + 1);
        lemma_matches_from(hay, nee, i + 1);
        assert(all == rest);
        assert forall|k: int| 0 <= k < all.len() implies ({
            let m = #[trigger] all[k];
            occurs_at(hay, nee, m.0) && m.1 == m.0 + nee.len() && m.0 >= i
        }) by {
            assert(rest[k].0 >= i + 1);
        }
    }
}

proof fn lemma_no_match_missed(hay: Seq<char>, nee: Seq<char>, i: int, p: int)
    requires
        0 <= i <= p,
        nee.len() > 0,
        occurs_at(hay, nee, p),
    ensures
        exists|k: int|
            0 <= k < matches_from(hay, nee, i).len() && (#[trigger] matches_from(
                hay,
                nee,
                i,
            )[k]).0 <= p < matches_from(hay, nee, i)[k].1,
    decreases hay.len() - i,
{
    let all = matches_from(hay, nee, i);
    if occurs_at(hay, nee, i) {
        let rest = matches_from(hay, nee, i + nee.len());
        if p < i + nee.len() {
            assert(all[0] == (i, i + nee.len()));
        } else {
            lemma_no_match_missed(hay, nee, i + nee.len(), p);
            let k = choose|k: int|
                0 <= k < rest.len() && (#[trigger] rest[k]).0 <= p < rest[k].1;
            assert(all[k + 1] == rest[k]);
        }
    } else {
        lemma_no_match_missed(hay, nee, i + 1, p);
    }
}

/// Every match spells the query, whatever the case of ASCII letters; matches
/// are in order and do not overlap; and every place where the query occurs lies
/// in a match.
pub proof fn law_matches_are_the_occurrences(text: Seq<char>, query: Seq<char>, p: int)
    ensures
        apart_in(matches_in(text, query), text.len() as int),
        forall|k: int|
            0 <= k < matches_in(text, query).len() ==> ({
                let m = #[trigger] matches_in(text, query)[k];
                lowered(text.subrange(m.0, m.1)) == lowered(query)
            }),
        query.len() > 0 && occurs_at(lowered(text), lowered(query), p) ==> exists|k: int|
            0 <= k < matches_in(text, query).len() && (#[trigger] matches_in(text, query)[k]).0
                <= p < matches_in(text, query)[k].1,
{
    let hay = lowered(text);
    let nee = lowered(query);
    let all = matches_in(text, query);
    lemma_matches_from(hay, nee, 0);
    assert forall|k: int| 0 <= k < all.len() implies ({
        let m = #[trigger] all[k];
        lowered(text.subrange(m.0, m.1)) == lowered(query)
    }) by {
        let m = all[k];
        assert(lowered(text.subrange(m.0, m.1)) =~= hay.subrange(m.0, m.1));
    }
    if query.len() > 0 && occurs_at(hay, nee, p) {
        lemma_no_match_missed(hay, nee, 0, p);
    }
}

/// Going to the next match and back, or back and on, leads to where it started.
pub proof fn law_next_and_previous_revert(f: FindState)
    requires
        f.wf(),
    ensures
        f.next().prev() == f,
        f.prev().next() == f,
{
    let n = f.matches.len() as int;
    if n > 0 {
        crate::steps::law_steps_revert(f.current, n);
        vstd::arithmetic::div_mod::lemma_mod_add_multiples_vanish(f.current - 1, n);
        vstd::arithmetic::div_mod::lemma_mod_add_multiples_vanish(f.next().current - 1, n);
    }
}

proof fn lemma_replaced_tail(text: Seq<char>, m: Seq<(int, int)>, rep: Seq<char>, cut: int)
    requires
        apart_in(m, cut),
        0 <= cut <= text.len(),
    ensures
        replaced_all(text, m, rep) == replaced_all(text.take(cut), m, rep) + text.skip(cut),
    decreases m.len(),
{
    if m.len() == 0 {
        assert(text =~= text.take(cut) + text.skip(cut));
    } else {
        let (a, e) = m.last();
        assert(m[m.len() - 1] == m.last());
        let t = spliced(text, a, e, rep);
        let head = text.take(cut);
        let u = spliced(head, a, e, rep);
        assert forall|i: int, j: int| 0 <= i < j < m.drop_last().len() implies (
        #[trigger] m.drop_last()[i]).1 <= (#[trigger] m.drop_last()[j]).0 by {
            assert(m[i].1 <= m[j].0);
        }
        assert forall|i: int| 0 <= i < m.drop_last().len() implies 0 <= (
        #[trigger] m.drop_last()[i]).0 <= m.drop_last()[i].1 <= a by {
            assert(m[i].1 <= m[m.len() - 1].0);
        }
        lemma_replaced_tail(t, m.drop_last(), rep, a);
        lemma_replaced_tail(u, m.drop_last(), rep, a);
        assert(t.take(a) =~= u.take(a));
        assert(t.skip(a) =~= u.skip(a) + text.skip(cut));
        assert(replaced_all(u, m.drop_last(), rep) + text.skip(cut) =~= replaced_all(
            u.take(a),
            m.drop_last(),
            rep,
        ) + (u.skip(a) + text.skip(cut)));
    }
}

/// Replacing matches leaves what is before the first, between two and behind
/// the last as it was: the text up to the last match is replaced by itself,
/// then come the replacement and what follows.
pub proof fn law_replacing_keeps_the_rest(text: Seq<char>, m: Seq<(int, int)>, rep: Seq<char>)
    requires
        apart_in(m, text.len() as int),
        m.len() > 0,
    ensures
        replaced_all(text, m, rep) == replaced_all(text.take(m.last().0), m.drop_last(), rep) + rep
            + text.skip(m.last().1),
        replaced_all(text, Seq::empty(), rep) == text,
{
    let (a, e) = m.last();
    assert(m[m.len() - 1] == m.last());
    let t = spliced(text, a, e, rep);
    assert forall|i: int, j: int| 0 <= i < j < m.drop_last().len() implies (
    #[trigger] m.drop_last()[i]).1 <= (#[trigger] m.drop_last()[j]).0 by {
        assert(m[i].1 <= m[j].0);
    }
    assert forall|i: int| 0 <= i < m.drop_last().len() implies 0 <= (
    #[trigger] m.drop_last()[i]).0 <= m.drop_last()[i].1 <= a by {
        assert(m[i].1 <= m[m.len() - 1].0);
    }
    lemma_replaced_tail(t, m.drop_last(), rep, a);
    assert(t.take(a) =~= text.take(a));
    assert(t.skip(a) =~= rep + text.skip(e));
    assert(replaced_all(text.take(a), m.drop_last(), rep) + rep + text.skip(e) =~= replaced_all(
        text.take(a),
        m.drop_last(),
        rep,
    ) + (rep + text.skip(e)));
}

proof fn lemma_first_behind(m: Seq<(int, int)>, pos: int, i: int)
    requires
        0 <= i <= m.len(),
        forall|k: int| 0 <= k < i ==> (#[trigger] m[k]).0 < pos,
    ensures
        ({
            let r = first_behind(m, pos, i);
            if r < 0 {
                forall|k: int| 0 <= k < m.len() ==> (#[trigger] m[k]).0 < pos
            } else {
                &&& i <= r < m.len()
                &&& m[r].0 >= pos
                &&& forall|k: int| 0 <= k < r ==> (#[trigger] m[k]).0 < pos
            }
        }),
    decreases m.len() - i,
{
    if i < m.len() && m[i].0 < pos {
        lemma_first_behind(m, pos, i + 1);
    }
}

/// Whether `c` is the first of the matches that starts at `pos` or behind it; the
/// very first where none does.
pub open spec fn first_from(m: Seq<(int, int)>, pos: int, c: int) -> bool {
    &&& 0 <= c < m.len()
    &&& m[c].0 >= pos || c == 0
    &&& m[c].0 >= pos ==> forall|k: int| 0 <= k < c ==> (#[trigger] m[k]).0 < pos
    &&& m[c].0 < pos ==> forall|k: int| 0 <= k < m.len() ==> (#[trigger] m[k]).0 < pos
}

/// Aiming at a place makes the first match that starts there or behind it the
/// current one, and goes round to the very first where there is none. It changes
/// nothing else.
pub proof fn law_aiming_takes_the_first_match_behind(f: FindState, pos: int)
    ensures
        f.aimed(pos).matches == f.matches,
        f.aimed(pos).query == f.query,
        f.aimed(pos).origin == f.origin,
        f.matches.len() == 0 ==> f.aimed(pos) == f,
        f.matches.len() > 0 ==> first_from(f.matches, pos, f.aimed(pos).current),
{
    lemma_first_behind(f.matches, pos, 0);
}

/// The next match is the one behind the current one, and behind the last comes the
/// first; the match before is the other way round.
pub proof fn law_next_is_the_match_behind(f: FindState)
    requires
        f.wf(),
        f.matches.len() > 0,
    ensures
        f.next().matches == f.matches,
        f.prev().matches == f.matches,
        f.current + 1 < f.matches.len() ==> f.next().current == f.current + 1,
        f.current + 1 == f.matches.len() ==> f.next().current == 0,
        f.current > 0 ==> f.prev().current == f.current - 1,
        f.current == 0 ==> f.prev().current == f.matches.len() - 1,
{
    let n = f.matches.len() as int;
    if f.current + 1 < n {
        vstd::arithmetic::div_mod::lemma_small_mod((f.current + 1) as nat, n as nat);
    } else {
        vstd::arithmetic::div_mod::lemma_mod_self_0(n);
    }
    if f.current > 0 {
        vstd::arithmetic::div_mod::lemma_mod_add_multiples_vanish(f.current - 1, n);
        vstd::arithmetic::div_mod::lemma_small_mod((f.current - 1) as nat, n as nat);
    } else {
        vstd::arithmetic::div_mod::lemma_small_mod((n - 1) as nat, n as nat);
    }
}

/// Whether two characters are the same letter, or the same character.
pub open spec fn same_letter(a: char, b: char) -> bool {
    a == b || ('a' <= a <= 'z' && b as int == a as int - 32) || ('a' <= b <= 'z' && a as int
        == b as int - 32)
}

/// Texts that differ only in the case of ASCII letters have their matches at the
/// same places, and so have queries that do.
pub proof fn law_searching_ignores_case(
    a: Seq<char>,
    b: Seq<char>,
    q: Seq<char>,
    r: Seq<char>,
)
    requires
        a.len() == b.len(),
        forall|i: int| 0 <= i < a.len() ==> same_letter(#[trigger] a[i], b[i]),
        q.len() == r.len(),
        forall|i: int| 0 <= i < q.len() ==> same_letter(#[trigger] q[i], r[i]),
    ensures
        matches_in(a, q) == matches_in(b, r),
{
    assert(lowered(a) =~= lowered(b)) by {
        assert forall|i: int| 0 <= i < a.len() implies lowered(a)[i] == lowered(b)[i] by {
            lemma_same_lower(a[i], b[i]);
        }
    }
    assert(lowered(q) =~= lowered(r)) by {
        assert forall|i: int| 0 <= i < q.len() implies lowered(q)[i] == lowered(r)[i] by {
            lemma_same_lower(q[i], r[i]);
        }
    }
}

/// What matches is the query, letter by letter.
pub proof fn law_a_match_is_the_query_letter_by_letter(
    text: Seq<char>,
    query: Seq<char>,
    k: int,
    i: int,
)
    requires
        0 <= k < matches_in(text, query).len(),
        0 <= i < query.len(),
    ensures
        ({
            let (s, e) = matches_in(text, query)[k];
            &&& 0 <= s
            &&& e == s + query.len()
            &&& e <= text.len()
            &&& same_letter(text[s + i], query[i])
        }),
{
    law_matches_are_the_occurrences(text, query, 0);
    let (s, e) = matches_in(text, query)[k];
    let m = text.subrange(s, e);
    assert(lowered(m).len() == lowered(query).len());
    assert(lowered(m)[i] == lowered(query)[i]);
    lemma_same_lower(m[i], query[i]);
}

proof fn lemma_same_lower(a: char, b: char)
    ensures
        same_letter(a, b) == (crate::chars::ascii_lower(a) == crate::chars::ascii_lower(b)),
{
    let x = crate::chars::ascii_lower(a);
    let y = crate::chars::ascii_lower(b);
    if 'A' <= a <= 'Z' {
        assert(x as int == a as int + 32);
    }
    if 'A' <= b <= 'Z' {
        assert(y as int == b as int + 32);
    }
}

} // verus!
