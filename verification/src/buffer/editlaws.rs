//! What typing and deleting do to the text and the carets.

use crate::buffer::changes::{
    edit_leaves, high, lemma_by_start, lemma_caret_within, lemma_leaves_same, lemma_many_leave,
    lemma_one_leaves, low, put_by, taken_by,
};
use crate::buffer::moves::lemma_back_while;
use crate::buffer::state::{
    back_while, plan_at, prev_word, separators, spliced, words, BufferState, CaretAt, Plan,
};
use crate::chars::char_is_alphanumeric;
use crate::lines::{lemma_line_around, lemma_line_of_monotone, lemma_line_start, line_of, line_start};
use vstd::prelude::*;

verus! {

/// Letters, numbers and the underscore.
pub open spec fn wordy(c: char) -> bool {
    char_is_alphanumeric(c) || c == '_'
}

/// Whether a word starts at `k`: a character of a word stands there, and none
/// before it.
pub open spec fn word_starts(s: Seq<char>, k: int) -> bool {
    0 <= k < s.len() && wordy(s[k]) && (k == 0 || !wordy(s[k - 1]))
}

/// Whether a word ends at `k`: a character of a word stands before it, and none
/// behind.
pub open spec fn word_ends(s: Seq<char>, k: int) -> bool {
    0 < k <= s.len() && wordy(s[k - 1]) && (k == s.len() || !wordy(s[k]))
}

/// No place is filled.
pub open spec fn nowhere() -> spec_fn(int) -> bool {
    |i: int| false
}

impl BufferState {
    /// The selected characters.
    pub open spec fn selected_places(self) -> spec_fn(int) -> bool {
        |i: int| self.marks(i)
    }

    /// The selected characters, and those behind the carets that select nothing.
    pub open spec fn behind_carets(self) -> spec_fn(int) -> bool {
        |i: int| self.marks(i) || self.bare_at(i)
    }

    /// The selected characters, and those before the carets that select nothing.
    pub open spec fn before_carets(self) -> spec_fn(int) -> bool {
        |i: int| self.marks(i) || self.bare_at(i + 1)
    }

    /// The characters of the words before the carets, and those between.
    pub open spec fn last_words(self) -> spec_fn(int) -> bool {
        |i: int| self.in_last_word(i)
    }

    /// The characters before the carets on their lines.
    pub open spec fn lines_before(self) -> spec_fn(int) -> bool {
        |i: int| self.in_line_before(i)
    }

    /// The places where selections start or bare carets stand.
    pub open spec fn caret_starts_at(self) -> spec_fn(int) -> bool {
        |i: int| self.caret_starts(i)
    }
}

/// Whether the edit takes the character at `i` at the caret `c`.
pub open spec fn takes_at(st: BufferState, p: Plan, c: CaretAt, i: int) -> bool {
    plan_at(st.text, p, c) is Some && plan_at(st.text, p, c)->0.from <= i < plan_at(
        st.text,
        p,
        c,
    )->0.to
}

/// Whether the edit takes the character at `i` at some caret.
pub open spec fn takes_somewhere(st: BufferState, p: Plan, i: int) -> bool {
    exists|c: CaretAt| #[trigger] st.has_caret(c) && takes_at(st, p, c, i)
}

/// A splice of an edit is that of one of the carets.
proof fn lemma_splices(st: BufferState, p: Plan, i: int)
    requires
        st.wf(),
        st.selections_ok(),
        st.carets_apart(),
    ensures
        taken_by(st.plans(p), i) == takes_somewhere(st, p, i),
        put_by(st.plans(p), i) == exists|c: CaretAt| #[trigger]
            st.has_caret(c) && plan_at(st.text, p, c) is Some && plan_at(st.text, p, c)->0.from
                == i,
{
    let s = st.text;
    let list = st.by_start();
    let plans = st.plans(p);
    lemma_by_start(st);
    if taken_by(plans, i) {
        let k = choose|k: int|
            0 <= k < plans.len() && (#[trigger] plans[k]) is Some && plans[k]->0.from <= i
                < plans[k]->0.to;
        assert(st.has_caret(list[k].caret));
        assert(plans[k] == plan_at(s, p, list[k].caret));
    }
    if put_by(plans, i) {
        let k = choose|k: int|
            0 <= k < plans.len() && (#[trigger] plans[k]) is Some && plans[k]->0.from == i;
        assert(st.has_caret(list[k].caret));
        assert(plans[k] == plan_at(s, p, list[k].caret));
    }
    if takes_somewhere(st, p, i) {
        let c = choose|c: CaretAt| #[trigger] st.has_caret(c) && takes_at(st, p, c, i);
        let k = choose|k: int| 0 <= k < list.len() && (#[trigger] list[k]).caret == c;
        assert(plans[k] == plan_at(s, p, c));
    }
    if exists|c: CaretAt| #[trigger]
        st.has_caret(c) && plan_at(s, p, c) is Some && plan_at(s, p, c)->0.from == i {
        let c = choose|c: CaretAt| #[trigger]
            st.has_caret(c) && plan_at(s, p, c) is Some && plan_at(s, p, c)->0.from == i;
        let k = choose|k: int| 0 <= k < list.len() && (#[trigger] list[k]).caret == c;
        assert(plans[k] == plan_at(s, p, c));
    }
}

/// A deletion at every caret leaves what no caret takes.
proof fn lemma_many(st: BufferState, p: Plan, h: spec_fn(int) -> bool)
    requires
        st.wf(),
        st.selections_ok(),
        st.carets_apart(),
        p is WordLeft || p is LineStart ==> st.nothing_selected(),
        p.ins().len() == 0,
        forall|i: int| 0 <= i < st.text.len() ==> #[trigger] h(i) == takes_somewhere(st, p, i),
    ensures
        edit_leaves(st, h, nowhere(), Seq::empty(), st.multi_edited(p)),
{
    let g = |i: int| taken_by(st.plans(p), i);
    let a = |i: int| put_by(st.plans(p), i);
    let e = Seq::<char>::empty();
    assert(p.ins() =~= e);
    lemma_many_leave(st, p);
    assert forall|i: int| 0 <= i < st.text.len() implies #[trigger] g(i) == h(i) by {
        lemma_splices(st, p, i);
        assert(h(i) == takes_somewhere(st, p, i));
    }
    lemma_leaves_same(st, g, h, a, nowhere(), e, st.multi_edited(p));
}

/// A deletion at the one caret leaves what it does not take.
proof fn lemma_single(st: BufferState, from: int, to: int, h: spec_fn(int) -> bool, b: BufferState)
    requires
        st.wf(),
        st.selections_ok(),
        st.carets.len() == 0,
        b.carets.len() == 0,
        0 <= from <= to <= st.text.len(),
        high(st.primary()) == to || high(st.primary()) == from,
        if from == to {
            b == st && !st.primary().selecting()
        } else {
            b.text == spliced(st.text, from, to, Seq::empty()) && b.cursor == from
        },
        forall|i: int| 0 <= i < st.text.len() ==> #[trigger] h(i) == (from <= i < to),
    ensures
        edit_leaves(st, h, nowhere(), Seq::empty(), b),
{
    let e = Seq::<char>::empty();
    let g = |i: int| from <= i < to;
    lemma_caret_within(st, st.primary());
    if from == to {
        assert(spliced(st.text, from, from, e) =~= st.text);
    }
    lemma_one_leaves(st, from, to, e, b);
    lemma_leaves_same(st, g, h, |i: int| i == from, nowhere(), e, b);
}

/// Without several carets there is only the primary one.
proof fn lemma_lone(st: BufferState)
    requires
        st.carets.len() == 0,
    ensures
        forall|c: CaretAt| #[trigger] st.has_caret(c) == (c == st.primary()),
{
}

proof fn lemma_delete_takes(st: BufferState, i: int)
    requires
        st.wf(),
        st.selections_ok(),
        0 <= i < st.text.len(),
    ensures
        (st.marks(i) || st.bare_at(i)) == takes_somewhere(st, Plan::Delete, i),
{
    let s = st.text;
    let p = Plan::Delete;
    if takes_somewhere(st, p, i) {
        let c = choose|c: CaretAt| #[trigger] st.has_caret(c) && takes_at(st, p, c, i);
        lemma_caret_within(st, c);
    }
    if st.marks(i) {
        let c = choose|c: CaretAt| #[trigger] st.has_caret(c) && low(c) <= i < high(c);
        lemma_caret_within(st, c);
        assert(takes_at(st, p, c, i));
    }
    if st.bare_at(i) {
        let c = choose|c: CaretAt| #[trigger] st.has_caret(c) && low(c) == high(c) == i;
        lemma_caret_within(st, c);
        assert(takes_at(st, p, c, i));
    }
}

proof fn lemma_delete_alone(st: BufferState)
    requires
        st.wf(),
        st.selections_ok(),
        st.carets.len() == 0,
    ensures
        edit_leaves(st, st.behind_carets(), nowhere(), Seq::empty(), st.deleted_ahead()),
{
    let s = st.text;
    let p = Plan::Delete;
    let h = st.behind_carets();
    assert forall|i: int| 0 <= i < s.len() implies #[trigger] h(i) == takes_somewhere(
        st,
        p,
        i,
    ) by {
        lemma_delete_takes(st, i);
    }
    lemma_lone(st);
    let c = st.primary();
    assert(st.has_caret(c));
    lemma_caret_within(st, c);
    let (from, to) = if c.selecting() {
        (c.start(), c.end())
    } else if st.cursor < s.len() {
        (st.cursor, st.cursor + 1)
    } else {
        (st.cursor, st.cursor)
    };
    assert forall|i: int| 0 <= i < s.len() implies #[trigger] h(i) == (from <= i < to) by {
        assert(h(i) == takes_somewhere(st, p, i));
        if takes_at(st, p, c, i) {
            assert(st.has_caret(c));
        }
    }
    lemma_single(st, from, to, h, st.deleted_ahead());
}

/// Delete takes exactly the selected characters and, at each caret that selects
/// nothing, the one character behind it; the carets stay where they are in the
/// text. It does so at one caret as at many.
pub proof fn law_delete_takes_what_is_behind(st: BufferState)
    requires
        st.wf(),
        st.selections_ok(),
        st.carets_apart(),
    ensures
        edit_leaves(
            st,
            st.behind_carets(),
            nowhere(),
            Seq::empty(),
            st.deleted_ahead(),
        ),
{
    let s = st.text;
    let p = Plan::Delete;
    let h = st.behind_carets();
    assert forall|i: int| 0 <= i < s.len() implies #[trigger] h(i) == takes_somewhere(
        st,
        p,
        i,
    ) by {
        lemma_delete_takes(st, i);
    }
    if st.carets.len() > 0 {
        lemma_many(st, p, h);
    } else {
        lemma_delete_alone(st);
    }
}

proof fn lemma_backspace_takes(st: BufferState, i: int)
    requires
        st.wf(),
        st.selections_ok(),
        0 <= i < st.text.len(),
    ensures
        (st.marks(i) || st.bare_at(i + 1)) == takes_somewhere(st, Plan::Backspace, i),
{
    let s = st.text;
    let p = Plan::Backspace;
    if takes_somewhere(st, p, i) {
        let c = choose|c: CaretAt| #[trigger] st.has_caret(c) && takes_at(st, p, c, i);
        lemma_caret_within(st, c);
    }
    if st.marks(i) {
        let c = choose|c: CaretAt| #[trigger] st.has_caret(c) && low(c) <= i < high(c);
        lemma_caret_within(st, c);
        assert(takes_at(st, p, c, i));
    }
    if st.bare_at(i + 1) {
        let c = choose|c: CaretAt| #[trigger] st.has_caret(c) && low(c) == high(c) == i + 1;
        lemma_caret_within(st, c);
        assert(takes_at(st, p, c, i));
    }
}

proof fn lemma_backspace_alone(st: BufferState)
    requires
        st.wf(),
        st.selections_ok(),
        st.carets.len() == 0,
    ensures
        edit_leaves(st, st.before_carets(), nowhere(), Seq::empty(), st.backspaced()),
{
    let s = st.text;
    let p = Plan::Backspace;
    let h = st.before_carets();
    assert forall|i: int| 0 <= i < s.len() implies #[trigger] h(i) == takes_somewhere(
        st,
        p,
        i,
    ) by {
        lemma_backspace_takes(st, i);
    }
    lemma_lone(st);
    let c = st.primary();
    assert(st.has_caret(c));
    lemma_caret_within(st, c);
    let (from, to) = if c.selecting() {
        (c.start(), c.end())
    } else if st.cursor > 0 {
        (st.cursor - 1, st.cursor)
    } else {
        (st.cursor, st.cursor)
    };
    assert forall|i: int| 0 <= i < s.len() implies #[trigger] h(i) == (from <= i < to) by {
        assert(h(i) == takes_somewhere(st, p, i));
        if takes_at(st, p, c, i) {
            assert(st.has_caret(c));
        }
    }
    lemma_single(st, from, to, h, st.backspaced());
}

/// Backspace takes exactly the selected characters and, at each caret that
/// selects nothing, the one character before it.
pub proof fn law_backspace_takes_what_is_before(st: BufferState)
    requires
        st.wf(),
        st.selections_ok(),
        st.carets_apart(),
    ensures
        edit_leaves(
            st,
            st.before_carets(),
            nowhere(),
            Seq::empty(),
            st.backspaced(),
        ),
{
    let s = st.text;
    let p = Plan::Backspace;
    let h = st.before_carets();
    assert forall|i: int| 0 <= i < s.len() implies #[trigger] h(i) == takes_somewhere(
        st,
        p,
        i,
    ) by {
        lemma_backspace_takes(st, i);
    }
    if st.carets.len() > 0 {
        lemma_many(st, p, h);
    } else {
        lemma_backspace_alone(st);
    }
}

impl BufferState {
    /// Whether `i` is before a caret, with no start of a word between the two.
    pub open spec fn in_last_word(self, i: int) -> bool {
        exists|c: CaretAt| #[trigger] self.has_caret(c) && i < c.cursor && no_word_starts(
            self.text,
            i,
            c.cursor,
        )
    }

    /// Whether `i` is before a caret on its line.
    pub open spec fn in_line_before(self, i: int) -> bool {
        exists|c: CaretAt| #[trigger] self.has_caret(c) && i < c.cursor && line_of(self.text, i)
            == line_of(self.text, c.cursor)
    }

    /// Whether a selection starts at `i`, or a caret that selects nothing stands
    /// there.
    pub open spec fn caret_starts(self, i: int) -> bool {
        exists|c: CaretAt| #[trigger] self.has_caret(c) && low(c) == i
    }
}

/// No word starts behind `a` and before `b`.
pub open spec fn no_word_starts(s: Seq<char>, a: int, b: int) -> bool {
    forall|k: int| a < k < b ==> !#[trigger] word_starts(s, k)
}

/// No word ends behind `a` and before `b`.
pub open spec fn no_word_ends(s: Seq<char>, a: int, b: int) -> bool {
    forall|k: int| a < k < b ==> !#[trigger] word_ends(s, k)
}

/// The word before a place starts at the last start of a word before it.
proof fn lemma_word_before(s: Seq<char>, p: int, i: int)
    requires
        0 <= p <= s.len(),
        0 <= i < p,
    ensures
        0 <= prev_word(s, p) <= p,
        (prev_word(s, p) <= i) == no_word_starts(s, i, p),
        prev_word(s, p) < p,
        prev_word(s, p) == 0 || word_starts(s, prev_word(s, p)),
{
    let m = back_while(s, p, separators());
    let r = back_while(s, m, words());
    lemma_back_while(s, p, separators());
    lemma_back_while(s, m, words());
    assert forall|k: int| r <= k < m implies wordy(#[trigger] s[k]) by {
        assert(words()(s[k]));
    }
    assert forall|k: int| m <= k < p implies !wordy(#[trigger] s[k]) by {
        assert(separators()(s[k]));
    }
    if m > 0 {
        assert(!separators()(s[m - 1]));
        assert(wordy(s[m - 1]));
    }
    if r > 0 {
        assert(!words()(s[r - 1]));
        assert(r < m);
        assert(word_starts(s, r));
    }
    if r <= i {
        assert forall|k: int| i < k < p implies !#[trigger] word_starts(s, k) by {
            if k < m {
                assert(wordy(s[k - 1]));
            }
        }
    }
}

proof fn lemma_word_takes(st: BufferState, i: int)
    requires
        st.wf(),
        st.selections_ok(),
        0 <= i < st.text.len(),
        st.nothing_selected(),
    ensures
        (st.in_last_word(i)) == takes_somewhere(st, Plan::WordLeft, i),
{
    let s = st.text;
    let p = Plan::WordLeft;
    if takes_somewhere(st, p, i) {
        let c = choose|c: CaretAt| #[trigger] st.has_caret(c) && takes_at(st, p, c, i);
        lemma_caret_within(st, c);
        lemma_word_before(s, c.cursor, i);
    }
    if st.in_last_word(i) {
        let c = choose|c: CaretAt| #[trigger]
            st.has_caret(c) && i < c.cursor && no_word_starts(s, i, c.cursor);
        lemma_caret_within(st, c);
        lemma_word_before(s, c.cursor, i);
        assert(takes_at(st, p, c, i));
    }
}

proof fn lemma_word_alone(st: BufferState)
    requires
        st.wf(),
        st.selections_ok(),
        st.carets.len() == 0,
        st.nothing_selected(),
    ensures
        edit_leaves(st, st.last_words(), nowhere(), Seq::empty(), st.word_deleted()),
{
    let s = st.text;
    let p = Plan::WordLeft;
    let h = st.last_words();
    assert forall|i: int| 0 <= i < s.len() implies #[trigger] h(i) == takes_somewhere(
        st,
        p,
        i,
    ) by {
        lemma_word_takes(st, i);
    }
    lemma_lone(st);
    let c = st.primary();
    assert(st.has_caret(c));
    lemma_caret_within(st, c);
    if st.cursor > 0 {
        lemma_word_before(s, st.cursor, 0);
    }
    let (from, to) = if st.cursor > 0 {
        (prev_word(s, st.cursor), st.cursor)
    } else {
        (st.cursor, st.cursor)
    };
    assert forall|i: int| 0 <= i < s.len() implies #[trigger] h(i) == (from <= i < to) by {
        assert(h(i) == takes_somewhere(st, p, i));
        if takes_at(st, p, c, i) {
            assert(st.has_caret(c));
        }
    }
    lemma_single(st, from, to, h, st.word_deleted());
}

/// Deleting by words takes, at carets that select nothing, everything from the
/// last start of a word before the caret on.
pub proof fn law_deleting_a_word_takes_the_word_before(st: BufferState)
    requires
        st.wf(),
        st.selections_ok(),
        st.carets_apart(),
        st.nothing_selected(),
    ensures
        edit_leaves(
            st,
            st.last_words(),
            nowhere(),
            Seq::empty(),
            st.word_deleted(),
        ),
{
    let s = st.text;
    let p = Plan::WordLeft;
    let h = st.last_words();
    assert forall|i: int| 0 <= i < s.len() implies #[trigger] h(i) == takes_somewhere(
        st,
        p,
        i,
    ) by {
        lemma_word_takes(st, i);
    }
    if st.carets.len() > 0 {
        lemma_many(st, p, h);
    } else {
        lemma_word_alone(st);
    }
}

/// What lies before a place on its line starts where the line does.
proof fn lemma_line_before(s: Seq<char>, p: int, i: int)
    requires
        0 <= i <= p <= s.len(),
    ensures
        0 <= line_start(s, line_of(s, p)) <= p,
        (line_start(s, line_of(s, p)) <= i) == (line_of(s, i) == line_of(s, p)),
{
    lemma_line_around(s, p);
    lemma_line_start(s, line_of(s, p));
    lemma_line_of_monotone(s, i, p);
    if line_start(s, line_of(s, p)) <= i {
        lemma_line_of_monotone(s, line_start(s, line_of(s, p)), i);
    }
}

proof fn lemma_line_takes(st: BufferState, i: int)
    requires
        st.wf(),
        st.selections_ok(),
        0 <= i < st.text.len(),
        st.nothing_selected(),
    ensures
        (st.in_line_before(i)) == takes_somewhere(st, Plan::LineStart, i),
{
    let s = st.text;
    let p = Plan::LineStart;
    if takes_somewhere(st, p, i) {
        let c = choose|c: CaretAt| #[trigger] st.has_caret(c) && takes_at(st, p, c, i);
        lemma_caret_within(st, c);
        lemma_line_before(s, c.cursor, i);
    }
    if st.in_line_before(i) {
        let c = choose|c: CaretAt| #[trigger]
            st.has_caret(c) && i < c.cursor && line_of(s, i) == line_of(s, c.cursor);
        lemma_caret_within(st, c);
        lemma_line_before(s, c.cursor, i);
        assert(takes_at(st, p, c, i));
    }
}

proof fn lemma_line_alone(st: BufferState)
    requires
        st.wf(),
        st.selections_ok(),
        st.carets.len() == 0,
        st.nothing_selected(),
    ensures
        edit_leaves(st, st.lines_before(), nowhere(), Seq::empty(), st.line_start_deleted()),
{
    let s = st.text;
    let p = Plan::LineStart;
    let h = st.lines_before();
    assert forall|i: int| 0 <= i < s.len() implies #[trigger] h(i) == takes_somewhere(
        st,
        p,
        i,
    ) by {
        lemma_line_takes(st, i);
    }
    lemma_lone(st);
    let c = st.primary();
    assert(st.has_caret(c));
    lemma_caret_within(st, c);
    lemma_line_before(s, st.cursor, st.cursor);
    let (from, to) = (
        line_start(s, line_of(s, st.cursor)),
        st.cursor,
    );
    assert forall|i: int| 0 <= i < s.len() implies #[trigger] h(i) == (from <= i < to) by {
        assert(h(i) == takes_somewhere(st, p, i));
        if takes_at(st, p, c, i) {
            assert(st.has_caret(c));
        }
    }
    lemma_single(st, from, to, h, st.line_start_deleted());
}

/// Deleting to the start of the line takes, at carets that select nothing,
/// everything before the caret on its line.
pub proof fn law_deleting_to_the_line_start_takes_the_line_before(st: BufferState)
    requires
        st.wf(),
        st.selections_ok(),
        st.carets_apart(),
        st.nothing_selected(),
    ensures
        edit_leaves(
            st,
            st.lines_before(),
            nowhere(),
            Seq::empty(),
            st.line_start_deleted(),
        ),
{
    let s = st.text;
    let p = Plan::LineStart;
    let h = st.lines_before();
    assert forall|i: int| 0 <= i < s.len() implies #[trigger] h(i) == takes_somewhere(
        st,
        p,
        i,
    ) by {
        lemma_line_takes(st, i);
    }
    if st.carets.len() > 0 {
        lemma_many(st, p, h);
    } else {
        lemma_line_alone(st);
    }
}

/// Where every caret selects something, each of the deletions takes exactly the
/// selected characters; and so does cutting, which leaves the rest alone where
/// some carets select nothing.
pub proof fn law_the_selections_are_deleted(st: BufferState)
    requires
        st.wf(),
        st.selections_ok(),
        st.carets_apart(),
    ensures
        ({
            let selected = st.selected_places();
            let all = forall|c: CaretAt| #[trigger] st.has_caret(c) ==> low(c) < high(c);
            let e = Seq::<char>::empty();
            &&& st.carets.len() > 0 ==> edit_leaves(
                st,
                selected,
                nowhere(),
                e,
                st.multi_edited(Plan::Cut),
            )
            &&& st.carets.len() == 0 && all ==> edit_leaves(
                st,
                selected,
                nowhere(),
                e,
                st.selection_cut(),
            )
            &&& all ==> {
                &&& edit_leaves(st, selected, nowhere(), e, st.deleted_ahead())
                &&& edit_leaves(st, selected, nowhere(), e, st.backspaced())
                &&& st.word_deleted() == st.backspaced()
                &&& st.line_start_deleted() == st.backspaced()
            }
        }),
{
    let h = st.selected_places();
    let s = st.text;
    let e = Seq::<char>::empty();
    assert forall|i: int| 0 <= i < s.len() implies #[trigger] h(i) == takes_somewhere(
        st,
        Plan::Cut,
        i,
    ) by {
        lemma_cut_takes(st, i);
    }
    if st.carets.len() > 0 {
        lemma_many(st, Plan::Cut, h);
    }
    if forall|c: CaretAt| #[trigger] st.has_caret(c) ==> low(c) < high(c) {
        let c = st.primary();
        assert(st.has_caret(c));
        lemma_caret_within(st, c);
        let g = st.behind_carets();
        let g1 = st.before_carets();
        assert forall|i: int| !#[trigger] st.bare_at(i) by {}
        law_delete_takes_what_is_behind(st);
        law_backspace_takes_what_is_before(st);
        lemma_leaves_same(st, g, h, nowhere(), nowhere(), e, st.deleted_ahead());
        lemma_leaves_same(st, g1, h, nowhere(), nowhere(), e, st.backspaced());
        if st.carets.len() > 0 {
            lemma_by_start(st);
            let list = st.by_start();
            assert forall|k: int| 0 <= k < list.len() implies (#[trigger]
            list[k]).caret.selecting() by {
                assert(st.has_caret(list[k].caret));
                lemma_caret_within(st, list[k].caret);
            }
            let x = st.plans(Plan::Backspace);
            assert(st.plans(Plan::WordLeft) =~= x);
            assert(st.plans(Plan::LineStart) =~= x);
            assert(st.edits(Plan::WordLeft) == st.edits(Plan::Backspace));
            assert(st.edits(Plan::LineStart) == st.edits(Plan::Backspace));
        }
    }
}

proof fn lemma_cut_takes(st: BufferState, i: int)
    requires
        st.wf(),
        st.selections_ok(),
        0 <= i < st.text.len(),
    ensures
        st.marks(i) == takes_somewhere(st, Plan::Cut, i),
{
    let p = Plan::Cut;
    if takes_somewhere(st, p, i) {
        let c = choose|c: CaretAt| #[trigger] st.has_caret(c) && takes_at(st, p, c, i);
        lemma_caret_within(st, c);
    }
    if st.marks(i) {
        let c = choose|c: CaretAt| #[trigger] st.has_caret(c) && low(c) <= i < high(c);
        lemma_caret_within(st, c);
        assert(takes_at(st, p, c, i));
    }
}

proof fn lemma_typed_alone(st: BufferState, t: Seq<char>)
    requires
        st.wf(),
        st.selections_ok(),
        st.carets.len() == 0,
    ensures
        edit_leaves(st, st.selected_places(), st.caret_starts_at(), t, st.typed(t)),
{
    let s = st.text;
    let h = st.selected_places();
    let y = st.caret_starts_at();
    let b = st.typed(t);
    lemma_lone(st);
    let c = st.primary();
    assert(st.has_caret(c));
    lemma_caret_within(st, c);
    let g = |i: int| c.start() <= i < c.end();
    let a = |i: int| i == c.start();
    let m = s.take(c.start()) + s.skip(c.end());
    if c.selecting() {
        assert(spliced(s, c.start(), c.end(), Seq::empty()) =~= m);
        assert(spliced(m, c.start(), c.start(), t) =~= spliced(s, c.start(), c.end(), t));
    }
    lemma_one_leaves(st, c.start(), c.end(), t, b);
    assert forall|i: int| 0 <= i < s.len() implies #[trigger] g(i) == h(i) by {
        if g(i) {
            assert(st.has_caret(c));
        }
    }
    assert forall|i: int| 0 <= i <= s.len() implies #[trigger] a(i) == y(i) by {
        if a(i) {
            assert(st.has_caret(c));
        }
    }
    lemma_leaves_same(st, g, h, a, y, t, b);
}

/// Typed or pasted text stands at every caret, in place of what it selected, and
/// the caret behind it.
pub proof fn law_typed_text_replaces_the_selections(st: BufferState, t: Seq<char>)
    requires
        st.wf(),
        st.selections_ok(),
        st.carets_apart(),
    ensures
        edit_leaves(
            st,
            st.selected_places(),
            st.caret_starts_at(),
            t,
            st.pasted(t),
        ),
{
    let s = st.text;
    let p = Plan::Type(t);
    let h = st.selected_places();
    let y = st.caret_starts_at();
    let b = st.pasted(t);
    if st.carets.len() > 0 {
        let g = |i: int| taken_by(st.plans(p), i);
        let a = |i: int| put_by(st.plans(p), i);
        lemma_many_leave(st, p);
        assert forall|i: int| 0 <= i < s.len() implies #[trigger] g(i) == h(i) by {
            lemma_type_takes(st, t, i);
        }
        assert forall|i: int| 0 <= i <= s.len() implies #[trigger] a(i) == y(i) by {
            lemma_type_takes(st, t, i);
        }
        lemma_leaves_same(st, g, h, a, y, t, b);
    } else {
        lemma_typed_alone(st, t);
    }
}

proof fn lemma_type_takes(st: BufferState, t: Seq<char>, i: int)
    requires
        st.wf(),
        st.selections_ok(),
        st.carets_apart(),
    ensures
        taken_by(st.plans(Plan::Type(t)), i) == st.marks(i),
        put_by(st.plans(Plan::Type(t)), i) == st.caret_starts(i),
{
    let p = Plan::Type(t);
    let s = st.text;
    lemma_splices(st, p, i);
    if takes_somewhere(st, p, i) {
        let c = choose|c: CaretAt| #[trigger] st.has_caret(c) && takes_at(st, p, c, i);
        lemma_caret_within(st, c);
    }
    if st.marks(i) {
        let c = choose|c: CaretAt| #[trigger] st.has_caret(c) && low(c) <= i < high(c);
        lemma_caret_within(st, c);
        assert(takes_at(st, p, c, i));
    }
    if put_by(st.plans(p), i) {
        let c = choose|c: CaretAt| #[trigger]
            st.has_caret(c) && plan_at(s, p, c) is Some && plan_at(s, p, c)->0.from == i;
        lemma_caret_within(st, c);
    }
    if st.caret_starts(i) {
        let c = choose|c: CaretAt| #[trigger] st.has_caret(c) && low(c) == i;
        lemma_caret_within(st, c);
        assert(plan_at(s, p, c) is Some && plan_at(s, p, c)->0.from == i);
    }
}

} // verus!
