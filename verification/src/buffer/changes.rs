//! What the edits leave of a text and where they leave the carets, whatever the
//! number of carets.

use crate::buffer::carets::{all_carets, lemma_merged, lemma_primary_from, lemma_sorted_by};
use crate::buffer::edits::{lemma_plans_fit, splices_fit};
use crate::buffer::state::{
    cursor_key, insert_by, merged, plan_at, primary_from, sorted_by, splice_all, spliced,
    start_key, unflagged, with_goals, BufferState, CaretAt, Flagged, Plan, Splice,
};
use vstd::prelude::*;

verus! {

/// The first `n` characters of `s`, without those at the places of `gone` and
/// with `t` put in at the places of `at`, the place behind them included.
pub open spec fn woven(
    s: Seq<char>,
    gone: spec_fn(int) -> bool,
    at: spec_fn(int) -> bool,
    t: Seq<char>,
    n: int,
) -> Seq<char>
    decreases n,
{
    let before = if n <= 0 {
        Seq::empty()
    } else if gone(n - 1) {
        woven(s, gone, at, t, n - 1)
    } else {
        woven(s, gone, at, t, n - 1).push(s[n - 1])
    };
    if at(n) {
        before + t
    } else {
        before
    }
}

/// Where the selection of `c` starts, or where it stands.
pub open spec fn low(c: CaretAt) -> int {
    match c.anchor {
        Some(a) => if a < c.cursor {
            a
        } else {
            c.cursor
        },
        None => c.cursor,
    }
}

/// Where the selection of `c` ends, or where it stands.
pub open spec fn high(c: CaretAt) -> int {
    match c.anchor {
        Some(a) => if a > c.cursor {
            a
        } else {
            c.cursor
        },
        None => c.cursor,
    }
}

impl BufferState {
    /// Whether `c` is one of the carets.
    pub open spec fn has_caret(self, c: CaretAt) -> bool {
        c == self.primary() || self.carets.contains(c)
    }

    /// Whether a caret stands at `p`.
    pub open spec fn caret_stands(self, p: int) -> bool {
        exists|c: CaretAt| #[trigger] self.has_caret(c) && c.cursor == p
    }

    /// The selections, and the places of the carets without one, are apart.
    pub open spec fn carets_apart(self) -> bool {
        forall|a: CaretAt, b: CaretAt|
            #![trigger self.has_caret(a), self.has_caret(b)]
            self.has_caret(a) && self.has_caret(b) && a.cursor != b.cursor ==> high(a) < low(b)
                || high(b) < low(a)
    }

    /// No caret selects anything.
    pub open spec fn nothing_selected(self) -> bool {
        forall|c: CaretAt| #[trigger] self.has_caret(c) ==> low(c) == high(c)
    }

    /// Whether the character at `i` is selected.
    pub open spec fn marks(self, i: int) -> bool {
        exists|c: CaretAt| #[trigger] self.has_caret(c) && low(c) <= i < high(c)
    }

    /// Whether a caret that selects nothing stands at `i`.
    pub open spec fn bare_at(self, i: int) -> bool {
        exists|c: CaretAt| #[trigger] self.has_caret(c) && low(c) == high(c) == i
    }
}

// ---- weaving ------------------------------------------------------------

proof fn lemma_woven_same(
    s: Seq<char>,
    g: spec_fn(int) -> bool,
    h: spec_fn(int) -> bool,
    a: spec_fn(int) -> bool,
    b: spec_fn(int) -> bool,
    t: Seq<char>,
    n: int,
)
    requires
        forall|i: int| 0 <= i < n ==> #[trigger] g(i) == h(i),
        t.len() == 0 || forall|i: int| 0 <= i <= n ==> #[trigger] a(i) == b(i),
    ensures
        n >= 0 ==> woven(s, g, a, t, n) == woven(s, h, b, t, n),
    decreases n,
{
    if n > 0 {
        lemma_woven_same(s, g, h, a, b, t, n - 1);
        assert(g(n - 1) == h(n - 1));
    }
    if t.len() == 0 {
        let x = if n <= 0 {
            Seq::empty()
        } else if g(n - 1) {
            woven(s, g, a, t, n - 1)
        } else {
            woven(s, g, a, t, n - 1).push(s[n - 1])
        };
        assert(x + t =~= x);
    } else if n >= 0 {
        assert(a(n) == b(n));
    }
}

pub proof fn lemma_woven_kept(
    s: Seq<char>,
    g: spec_fn(int) -> bool,
    a: spec_fn(int) -> bool,
    t: Seq<char>,
    from: int,
    to: int,
)
    requires
        0 <= from <= to <= s.len(),
        forall|i: int| from <= i < to ==> !#[trigger] g(i),
        t.len() == 0 || forall|i: int| from < i <= to ==> !#[trigger] a(i),
    ensures
        woven(s, g, a, t, to) == woven(s, g, a, t, from) + s.subrange(from, to),
    decreases to - from,
{
    if from == to {
        assert(s.subrange(from, to) =~= Seq::empty());
        assert(woven(s, g, a, t, from) + Seq::<char>::empty() =~= woven(s, g, a, t, from));
    } else {
        lemma_woven_kept(s, g, a, t, from, to - 1);
        assert(!g(to - 1));
        let b = woven(s, g, a, t, to - 1).push(s[to - 1]);
        assert(b =~= woven(s, g, a, t, from) + s.subrange(from, to));
        if t.len() == 0 {
            assert(b + t =~= b);
        } else {
            assert(!a(to));
        }
    }
}

pub proof fn lemma_woven_gone(
    s: Seq<char>,
    g: spec_fn(int) -> bool,
    a: spec_fn(int) -> bool,
    t: Seq<char>,
    from: int,
    to: int,
)
    requires
        0 <= from <= to,
        forall|i: int| from <= i < to ==> #[trigger] g(i),
        t.len() == 0 || forall|i: int| from < i <= to ==> !#[trigger] a(i),
    ensures
        woven(s, g, a, t, to) == woven(s, g, a, t, from),
    decreases to - from,
{
    if from < to {
        lemma_woven_gone(s, g, a, t, from, to - 1);
        assert(g(to - 1));
        let b = woven(s, g, a, t, to - 1);
        if t.len() == 0 {
            assert(b + t =~= b);
        } else {
            assert(!a(to));
        }
    }
}

// ---- splicing at many places --------------------------------------------

/// Whether one of the splices takes the character at `i`.
pub open spec fn taken_by(plans: Seq<Option<Splice>>, i: int) -> bool {
    exists|k: int|
        0 <= k < plans.len() && (#[trigger] plans[k]) is Some && plans[k]->0.from <= i
            < plans[k]->0.to
}

/// Whether one of the splices puts something in at `i`.
pub open spec fn put_by(plans: Seq<Option<Splice>>, i: int) -> bool {
    exists|k: int|
        0 <= k < plans.len() && (#[trigger] plans[k]) is Some && plans[k]->0.from == i
}

/// Splices from left to right, all putting in `t`. Where that is not empty they
/// do not even touch.
pub open spec fn splices_climb(plans: Seq<Option<Splice>>, t: Seq<char>) -> bool {
    &&& forall|k: int|
        0 <= k < plans.len() ==> ((#[trigger] plans[k]) matches Some(p) ==> p.ins == t)
    &&& forall|j: int, k: int|
        0 <= j < k < plans.len() && (#[trigger] plans[j]) is Some && (#[trigger] plans[k]) is Some
            ==> plans[j]->0.from <= plans[k]->0.from && plans[j]->0.to <= plans[k]->0.to && (
        t.len() > 0 ==> plans[j]->0.to < plans[k]->0.from)
}

/// Where the caret `k` ends up: behind what is left of the text before the end of
/// its splice.
pub open spec fn lands(list: Seq<Flagged>, plans: Seq<Option<Splice>>, k: int) -> int {
    match plans[k] {
        Some(p) => p.to,
        None => list[k].caret.cursor,
    }
}

proof fn lemma_fit_front(list: Seq<Flagged>, plans: Seq<Option<Splice>>, len: int, t: Seq<char>)
    requires
        splices_fit(list, plans, len, t.len() as int),
        splices_climb(plans, t),
        list.len() > 0,
    ensures
        splices_fit(list.drop_last(), plans.drop_last(), len, t.len() as int),
        splices_climb(plans.drop_last(), t),
{
    let l = list.drop_last();
    let q = plans.drop_last();
    assert forall|i: int| 0 <= i < l.len() implies 0 <= (#[trigger] l[i]).caret.cursor <= len by {
        assert(l[i] == list[i]);
    }
    assert forall|i: int| 0 <= i < q.len() implies ((#[trigger] q[i]) matches Some(p) ==> 0
        <= p.from <= p.to <= len && p.ins.len() <= t.len() && p.ins == t) by {
        assert(q[i] == plans[i]);
    }
    assert forall|i: int, j: int| 0 <= i < j < q.len() && (#[trigger] q[i]) is None implies ((
    #[trigger] q[j]) matches Some(p) ==> p.from >= l[i].caret.cursor) by {
        assert(q[i] == plans[i] && q[j] == plans[j]);
    }
    assert forall|j: int, k: int|
        0 <= j < k < q.len() && (#[trigger] q[j]) is Some && (#[trigger] q[k]) is Some implies
        q[j]->0.from <= q[k]->0.from && q[j]->0.to <= q[k]->0.to && (t.len() > 0 ==> q[j]->0.to
        < q[k]->0.from) by {
        assert(q[j] == plans[j] && q[k] == plans[k]);
    }
}

/// The predicates of all but the last splice, with those of the last one.
proof fn lemma_last_splice(plans: Seq<Option<Splice>>, i: int)
    requires
        plans.len() > 0,
    ensures
        taken_by(plans, i) == (taken_by(plans.drop_last(), i) || (plans.last() is Some
            && plans.last()->0.from <= i < plans.last()->0.to)),
        put_by(plans, i) == (put_by(plans.drop_last(), i) || (plans.last() is Some
            && plans.last()->0.from == i)),
{
    let q = plans.drop_last();
    let n = plans.len() - 1;
    assert(plans[n] == plans.last());
    if taken_by(plans, i) {
        let k = choose|k: int|
            0 <= k < plans.len() && (#[trigger] plans[k]) is Some && plans[k]->0.from <= i
                < plans[k]->0.to;
        if k < n {
            assert(q[k] == plans[k]);
        }
    }
    if taken_by(q, i) {
        let k = choose|k: int|
            0 <= k < q.len() && (#[trigger] q[k]) is Some && q[k]->0.from <= i < q[k]->0.to;
        assert(q[k] == plans[k]);
    }
    if put_by(plans, i) {
        let k = choose|k: int|
            0 <= k < plans.len() && (#[trigger] plans[k]) is Some && plans[k]->0.from == i;
        if k < n {
            assert(q[k] == plans[k]);
        }
    }
    if put_by(q, i) {
        let k = choose|k: int| 0 <= k < q.len() && (#[trigger] q[k]) is Some && q[k]->0.from == i;
        assert(q[k] == plans[k]);
    }
}

/// Where the splices are done, nothing behind is taken or put in.
proof fn lemma_done(s: Seq<char>, list: Seq<Flagged>, plans: Seq<Option<Splice>>, t: Seq<char>)
    requires
        splices_fit(list, plans, s.len() as int, t.len() as int),
        splices_climb(plans, t),
    ensures
        ({
            let d = splice_all(s, list, plans).done;
            &&& 0 <= d <= s.len()
            &&& forall|k: int|
                0 <= k < plans.len() ==> ((#[trigger] plans[k]) matches Some(p) ==> p.to <= d)
            &&& d == 0 || exists|k: int|
                0 <= k < plans.len() && (#[trigger] plans[k]) is Some && plans[k]->0.to == d && (
                forall|j: int|
                    0 <= j < plans.len() && (#[trigger] plans[j]) is Some ==> plans[j]->0.from
                        <= plans[k]->0.from)
        }),
    decreases list.len(),
{
    if list.len() > 0 {
        lemma_fit_front(list, plans, s.len() as int, t);
        let l = list.drop_last();
        let q = plans.drop_last();
        lemma_done(s, l, q, t);
        let b = splice_all(s, l, q);
        let d = splice_all(s, list, plans).done;
        let n = plans.len() - 1;
        assert(plans[n] == plans.last());
        assert forall|k: int| 0 <= k < n implies #[trigger] plans[k] == q[k] by {}
        match plans.last() {
            Some(p) => {
                if b.done > 0 {
                    let k = choose|k: int|
                        0 <= k < q.len() && (#[trigger] q[k]) is Some && q[k]->0.to == b.done && (
                        forall|j: int|
                            0 <= j < q.len() && (#[trigger] q[j]) is Some ==> q[j]->0.from
                                <= q[k]->0.from);
                    assert(plans[k] is Some && plans[n] is Some);
                }
                assert(p.to >= b.done);
                assert(d == p.to);
                assert forall|j: int| 0 <= j < plans.len() && (#[trigger] plans[j]) is Some implies
                    plans[j]->0.from <= plans[n]->0.from by {}
                assert forall|k: int| 0 <= k < plans.len() implies ((#[trigger] plans[k]) matches
                    Some(x) ==> x.to <= d) by {}
                if d > 0 {
                    assert(plans[n] is Some && plans[n]->0.to == d);
                }
            },
            None => {
                assert(d == b.done);
                if d > 0 {
                    let k = choose|k: int|
                        0 <= k < q.len() && (#[trigger] q[k]) is Some && q[k]->0.to == b.done && (
                        forall|j: int|
                            0 <= j < q.len() && (#[trigger] q[j]) is Some ==> q[j]->0.from
                                <= q[k]->0.from);
                    assert(plans[k] is Some && plans[k]->0.to == d);
                    assert forall|j: int|
                        0 <= j < plans.len() && (#[trigger] plans[j]) is Some implies plans[j]->0.from
                        <= plans[k]->0.from by {
                        assert(q[j] is Some);
                    }
                }
            },
        }
    }
}

/// A caret with nothing to edit stands behind what the ones before it took.
pub open spec fn idle_apart(list: Seq<Flagged>, plans: Seq<Option<Splice>>) -> bool {
    forall|j: int, k: int|
        0 <= j < k < plans.len() && (#[trigger] plans[j]) is Some && (#[trigger] plans[k]) is None
            ==> plans[j]->0.to <= list[k].caret.cursor
}

/// Splices that go from left to right weave the text.
proof fn lemma_splices_weave(
    s: Seq<char>,
    list: Seq<Flagged>,
    plans: Seq<Option<Splice>>,
    t: Seq<char>,
)
    requires
        splices_fit(list, plans, s.len() as int, t.len() as int),
        splices_climb(plans, t),
        idle_apart(list, plans),
        t.len() > 0 ==> forall|k: int| 0 <= k < plans.len() ==> (#[trigger] plans[k]) is Some,
    ensures
        ({
            let g = |i: int| taken_by(plans, i);
            let a = |i: int| put_by(plans, i);
            let r = splice_all(s, list, plans);
            &&& 0 <= r.done <= s.len()
            &&& r.out == woven(s, g, a, t, r.done)
            &&& r.carets.len() == list.len()
            &&& forall|k: int|
                0 <= k < list.len() ==> (#[trigger] r.carets[k]).caret.cursor == woven(
                    s,
                    g,
                    a,
                    t,
                    lands(list, plans, k),
                ).len() && r.carets[k].caret.anchor is None && r.carets[k].primary
                    == list[k].primary
        }),
    decreases list.len(),
{
    let g = |i: int| taken_by(plans, i);
    let a = |i: int| put_by(plans, i);
    let r = splice_all(s, list, plans);
    if list.len() == 0 {
        assert(!put_by(plans, 0));
        assert(!a(0));
    } else {
        lemma_fit_front(list, plans, s.len() as int, t);
        let l = list.drop_last();
        let q = plans.drop_last();
        let n = list.len() - 1;
        assert(plans[n] == plans.last());
        assert(list[n] == list.last());
        assert forall|k: int| 0 <= k < n implies #[trigger] plans[k] == q[k] && list[k]
            == l[k] by {}
        assert(idle_apart(l, q)) by {
            assert forall|j: int, k: int|
                0 <= j < k < q.len() && (#[trigger] q[j]) is Some && (#[trigger] q[k]) is None
                    implies q[j]->0.to <= l[k].caret.cursor by {
                assert(plans[j] is Some && plans[k] is None);
            }
        }
        assert forall|k: int| 0 <= k < q.len() && t.len() > 0 implies (#[trigger] q[k]) is Some by {
            assert(plans[k] is Some);
        }
        lemma_splices_weave(s, l, q, t);
        lemma_done(s, l, q, t);
        lemma_done(s, list, plans, t);
        let g0 = |i: int| taken_by(q, i);
        let a0 = |i: int| put_by(q, i);
        let b = splice_all(s, l, q);
        if plans.last() is Some {
            lemma_last_woven(s, list, plans, t);
        } else {
            lemma_idle_woven(s, list, plans, t);
        }
        assert forall|k: int| 0 <= k < list.len() implies (#[trigger] r.carets[k]).caret.cursor
            == woven(s, g, a, t, lands(list, plans, k)).len() && r.carets[k].caret.anchor is None
            && r.carets[k].primary == list[k].primary by {
            if k < n {
                assert(r.carets[k] == b.carets[k]);
                lemma_landed(s, list, plans, t, k);
            }
        }
    }
}

/// The last splice does not move the place of an earlier caret.
proof fn lemma_landed(
    s: Seq<char>,
    list: Seq<Flagged>,
    plans: Seq<Option<Splice>>,
    t: Seq<char>,
    k: int,
)
    requires
        splices_fit(list, plans, s.len() as int, t.len() as int),
        splices_climb(plans, t),
        t.len() > 0 ==> forall|k: int| 0 <= k < plans.len() ==> (#[trigger] plans[k]) is Some,
        0 <= k < plans.len() - 1,
    ensures
        ({
            let q = plans.drop_last();
            let e = lands(list, plans, k);
            &&& e == lands(list.drop_last(), q, k)
            &&& woven(s, |i: int| taken_by(plans, i), |i: int| put_by(plans, i), t, e) == woven(
                s,
                |i: int| taken_by(q, i),
                |i: int| put_by(q, i),
                t,
                e,
            )
        }),
{
    let g = |i: int| taken_by(plans, i);
    let a = |i: int| put_by(plans, i);
    let l = list.drop_last();
    let q = plans.drop_last();
    let g0 = |i: int| taken_by(q, i);
    let a0 = |i: int| put_by(q, i);
    let n = plans.len() - 1;
    let d = splice_all(s, l, q).done;
    let e = lands(list, plans, k);
    assert(plans[k] == q[k] && list[k] == l[k]);
    assert(plans[n] == plans.last());
    lemma_fit_front(list, plans, s.len() as int, t);
    lemma_done(s, l, q, t);
    lemma_earlier_splices(s, list, plans, t);
    if q[k] is Some {
        assert(e <= d);
    }
    assert forall|i: int| 0 <= i < e implies #[trigger] g(i) == g0(i) by {
        if q[k] is Some {
            assert(taken_by(plans, i) == taken_by(q, i));
        } else {
            lemma_last_splice(plans, i);
            if plans.last() is Some {
                assert(plans[n] is Some && plans[k] is None);
                assert(plans.last()->0.from >= e);
            }
        }
    }
    if t.len() > 0 {
        assert(plans[k] is Some);
        assert forall|i: int| 0 <= i <= e implies #[trigger] a(i) == a0(i) by {
            assert(put_by(plans, i) == put_by(q, i));
        }
    }
    assert(e >= 0) by {
        if plans[k] is Some {
        } else {
            assert(0 <= list[k].caret.cursor);
        }
    }
    lemma_woven_same(s, g, g0, a, a0, t, e);
}

/// A last caret with nothing to edit changes nothing and goes along.
proof fn lemma_idle_woven(
    s: Seq<char>,
    list: Seq<Flagged>,
    plans: Seq<Option<Splice>>,
    t: Seq<char>,
)
    requires
        splices_fit(list, plans, s.len() as int, t.len() as int),
        splices_climb(plans, t),
        idle_apart(list, plans),
        t.len() == 0,
        plans.len() > 0,
        plans.last() is None,
        ({
            let b = splice_all(s, list.drop_last(), plans.drop_last());
            b.out == woven(
                s,
                |i: int| taken_by(plans.drop_last(), i),
                |i: int| put_by(plans.drop_last(), i),
                t,
                b.done,
            )
        }),
    ensures
        ({
            let r = splice_all(s, list, plans);
            let g = |i: int| taken_by(plans, i);
            let a = |i: int| put_by(plans, i);
            &&& r.out == woven(s, g, a, t, r.done)
            &&& r.carets.last().caret.cursor == woven(s, g, a, t, list.last().caret.cursor).len()
        }),
{
    let g = |i: int| taken_by(plans, i);
    let a = |i: int| put_by(plans, i);
    let l = list.drop_last();
    let q = plans.drop_last();
    let g0 = |i: int| taken_by(q, i);
    let a0 = |i: int| put_by(q, i);
    let n = plans.len() - 1;
    let b = splice_all(s, l, q);
    let e = list.last().caret.cursor;
    assert(plans[n] == plans.last());
    assert(list[n] == list.last());
    lemma_fit_front(list, plans, s.len() as int, t);
    lemma_done(s, l, q, t);
    assert forall|i: int| #[trigger] g(i) == g0(i) by {
        lemma_last_splice(plans, i);
    }
    lemma_woven_same(s, g, g0, a, a0, t, b.done);
    assert(b.done <= e) by {
        if b.done > 0 {
            let j = choose|j: int|
                0 <= j < q.len() && (#[trigger] q[j]) is Some && q[j]->0.to == b.done && (forall|
                    m: int,
                |
                    0 <= m < q.len() && (#[trigger] q[m]) is Some ==> q[m]->0.from <= q[j]->0.from);
            assert(plans[j] == q[j]);
            assert(plans[n] is None);
        }
    }
    assert forall|i: int| b.done <= i < e implies !#[trigger] g(i) by {
        lemma_last_splice(plans, i);
        assert(!taken_by(q, i));
    }
    lemma_woven_kept(s, g, a, t, b.done, e);
}

/// The last splice changes nothing before the place that the others reached.
proof fn lemma_earlier_splices(
    s: Seq<char>,
    list: Seq<Flagged>,
    plans: Seq<Option<Splice>>,
    t: Seq<char>,
)
    requires
        splices_fit(list, plans, s.len() as int, t.len() as int),
        splices_climb(plans, t),
        t.len() > 0 ==> forall|k: int| 0 <= k < plans.len() ==> (#[trigger] plans[k]) is Some,
        plans.len() > 0,
    ensures
        ({
            let q = plans.drop_last();
            let d = splice_all(s, list.drop_last(), q).done;
            &&& forall|i: int| 0 <= i < d ==> #[trigger] taken_by(plans, i) == taken_by(q, i)
            &&& t.len() > 0 && plans.len() > 1 ==> plans.last()->0.from > d && forall|i: int|
                0 <= i <= d ==> #[trigger] put_by(plans, i) == put_by(q, i)
        }),
{
    let l = list.drop_last();
    let q = plans.drop_last();
    let n = plans.len() - 1;
    lemma_fit_front(list, plans, s.len() as int, t);
    lemma_done(s, l, q, t);
    let d = splice_all(s, l, q).done;
    assert(plans[n] == plans.last());
    assert forall|k: int| 0 <= k < n implies #[trigger] plans[k] == q[k] by {}
    assert forall|i: int| 0 <= i < d implies #[trigger] taken_by(plans, i) == taken_by(q, i) by {
        lemma_last_splice(plans, i);
        if plans.last() is Some && plans.last()->0.from <= i {
            let k = choose|k: int|
                0 <= k < q.len() && (#[trigger] q[k]) is Some && q[k]->0.to == d && (forall|j: int|
                    0 <= j < q.len() && (#[trigger] q[j]) is Some ==> q[j]->0.from <= q[k]->0.from);
            assert(plans[k] is Some && plans[n] is Some);
            assert(q[k]->0.from <= i < q[k]->0.to);
        }
    }
    if t.len() > 0 && plans.len() > 1 {
        assert(plans.last()->0.from > d) by {
            assert(plans[n] is Some);
            if d > 0 {
                let k = choose|k: int|
                    0 <= k < q.len() && (#[trigger] q[k]) is Some && q[k]->0.to == d && (forall|
                        j: int,
                    |
                        0 <= j < q.len() && (#[trigger] q[j]) is Some ==> q[j]->0.from
                            <= q[k]->0.from);
                assert(plans[k] is Some);
            } else {
                assert(plans[0] is Some);
                assert(plans[0] == q[0]);
                assert(0 <= plans[0]->0.to);
            }
        }
        assert forall|i: int| 0 <= i <= d implies #[trigger] put_by(plans, i) == put_by(q, i) by {
            lemma_last_splice(plans, i);
        }
    }
}

/// What the last splice makes of the text that the others wove.
proof fn lemma_last_woven(
    s: Seq<char>,
    list: Seq<Flagged>,
    plans: Seq<Option<Splice>>,
    t: Seq<char>,
)
    requires
        splices_fit(list, plans, s.len() as int, t.len() as int),
        splices_climb(plans, t),
        t.len() > 0 ==> forall|k: int| 0 <= k < plans.len() ==> (#[trigger] plans[k]) is Some,
        plans.len() > 0,
        plans.last() is Some,
        ({
            let b = splice_all(s, list.drop_last(), plans.drop_last());
            b.out == woven(
                s,
                |i: int| taken_by(plans.drop_last(), i),
                |i: int| put_by(plans.drop_last(), i),
                t,
                b.done,
            )
        }),
    ensures
        ({
            let r = splice_all(s, list, plans);
            &&& r.done == plans.last()->0.to
            &&& r.out == woven(s, |i: int| taken_by(plans, i), |i: int| put_by(plans, i), t, r.done)
        }),
{
    let g = |i: int| taken_by(plans, i);
    let a = |i: int| put_by(plans, i);
    let l = list.drop_last();
    let q = plans.drop_last();
    let g0 = |i: int| taken_by(q, i);
    let a0 = |i: int| put_by(q, i);
    let n = plans.len() - 1;
    let b = splice_all(s, l, q);
    let r = splice_all(s, list, plans);
    let p = plans.last()->0;
    let d = b.done;
    assert(plans[n] == plans.last());
    assert forall|k: int| 0 <= k < n implies #[trigger] plans[k] == q[k] by {}
    lemma_fit_front(list, plans, s.len() as int, t);
    lemma_done(s, l, q, t);
    lemma_done(s, list, plans, t);
    lemma_earlier_splices(s, list, plans, t);
    let from = if p.from >= d {
        p.from
    } else {
        d
    };
    assert(r.done == p.to) by {
        if r.done > p.to {
            if r.done > 0 {
                let k = choose|k: int|
                    0 <= k < plans.len() && (#[trigger] plans[k]) is Some && plans[k]->0.to
                        == r.done && (forall|j: int|
                        0 <= j < plans.len() && (#[trigger] plans[j]) is Some ==> plans[j]->0.from
                            <= plans[k]->0.from);
                assert(plans[n] is Some);
            }
        }
    }
    assert(p.ins == t);
    assert(r.out == b.out + s.subrange(d, from) + t);
    assert(from <= p.to);
    assert forall|i: int| 0 <= i < d implies #[trigger] g(i) == g0(i) by {
        assert(taken_by(plans, i) == taken_by(q, i));
    }
    assert forall|i: int| d <= i < from implies !#[trigger] g(i) by {
        lemma_last_splice(plans, i);
        assert(!taken_by(q, i));
    }
    assert forall|i: int| from <= i < p.to implies #[trigger] g(i) by {
        lemma_last_splice(plans, i);
    }
    if t.len() == 0 {
        lemma_woven_same(s, g, g0, a, a0, t, d);
        lemma_woven_kept(s, g, a, t, d, from);
        assert(b.out + s.subrange(d, from) + t =~= b.out + s.subrange(d, from));
        lemma_woven_gone(s, g, a, t, from, p.to);
    } else {
        assert(from == p.from) by {
            if n == 0 {
                assert(d == 0);
            }
        }
        assert forall|i: int| d < i && i != from implies !#[trigger] a(i) by {
            lemma_last_splice(plans, i);
            assert(!put_by(q, i));
        }
        assert(a(from)) by {
            lemma_last_splice(plans, from);
        }
        if from == 0 {
            assert(n == 0);
            assert(b.out + s.subrange(d, from) + t =~= Seq::<char>::empty() + t);
        } else {
            if n == 0 {
                assert(d == 0);
                assert(!a(0)) by {
                    lemma_last_splice(plans, 0);
                    assert(!put_by(q, 0));
                }
                assert(woven(s, g, a, t, 0) =~= b.out);
            } else {
                assert forall|i: int| 0 <= i <= d implies #[trigger] a(i) == a0(i) by {
                    assert(put_by(plans, i) == put_by(q, i));
                }
                lemma_woven_same(s, g, g0, a, a0, t, d);
            }
            lemma_woven_kept(s, g, a, t, d, from - 1);
            assert(!g(from - 1));
            assert(b.out + s.subrange(d, from - 1) =~= woven(s, g, a, t, from - 1));
            assert((b.out + s.subrange(d, from - 1)).push(s[from - 1]) =~= b.out + s.subrange(
                d,
                from,
            ));
        }
        assert(woven(s, g, a, t, from) == r.out);
        lemma_woven_gone(s, g, a, t, from, p.to);
    }
}

// ---- carets put in their places -----------------------------------------

/// Whether a caret of the list stands at `p`.
pub open spec fn stands(list: Seq<Flagged>, p: int) -> bool {
    exists|k: int| 0 <= k < list.len() && (#[trigger] list[k]).caret.cursor == p
}

/// Whether a primary caret of the list stands at `p`.
pub open spec fn leads(list: Seq<Flagged>, p: int) -> bool {
    exists|k: int|
        0 <= k < list.len() && (#[trigger] list[k]).caret.cursor == p && list[k].primary
}

proof fn lemma_insert_holds(list: Seq<Flagged>, x: Flagged, key: spec_fn(Flagged) -> int)
    ensures
        forall|y: Flagged| #[trigger]
            insert_by(list, x, key).contains(y) == (list.contains(y) || y == x),
        list.no_duplicates() && !list.contains(x) ==> insert_by(list, x, key).no_duplicates(),
        insert_by(list, x, key).len() == list.len() + 1,
    decreases list.len(),
{
    let r = insert_by(list, x, key);
    if list.len() == 0 || key(list.last()) <= key(x) {
        assert forall|y: Flagged| #[trigger] r.contains(y) == (list.contains(y) || y == x) by {
            if list.contains(y) {
                let k = choose|k: int| 0 <= k < list.len() && list[k] == y;
                assert(r[k] == y);
            }
            assert(r[list.len() as int] == x);
        }
    } else {
        let l = list.drop_last();
        lemma_insert_holds(l, x, key);
        let f = insert_by(l, x, key);
        assert(r == f.push(list.last()));
        assert forall|y: Flagged| #[trigger] list.contains(y) == (l.contains(y) || y
            == list.last()) by {
            if list.contains(y) {
                let k = choose|k: int| 0 <= k < list.len() && list[k] == y;
                if k < l.len() {
                    assert(l[k] == y);
                }
            }
            if l.contains(y) {
                let k = choose|k: int| 0 <= k < l.len() && l[k] == y;
                assert(list[k] == y);
            }
            assert(list[list.len() - 1] == list.last());
        }
        assert forall|y: Flagged| #[trigger] r.contains(y) == (f.contains(y) || y
            == list.last()) by {
            if r.contains(y) {
                let k = choose|k: int| 0 <= k < r.len() && r[k] == y;
                if k < f.len() {
                    assert(f[k] == y);
                }
            }
            if f.contains(y) {
                let k = choose|k: int| 0 <= k < f.len() && f[k] == y;
                assert(r[k] == y);
            }
            assert(r[f.len() as int] == list.last());
        }
        if list.no_duplicates() && !list.contains(x) {
            assert forall|i: int, j: int| 0 <= i < l.len() && 0 <= j < l.len() && i != j implies l[i]
                != l[j] by {
                assert(list[i] != list[j]);
            }
            assert(!l.contains(list.last())) by {
                if l.contains(list.last()) {
                    let k = choose|k: int| 0 <= k < l.len() && l[k] == list.last();
                    assert(list[k] != list[list.len() - 1]);
                }
            }
            assert(list.contains(list.last()));
            assert(!f.contains(list.last()));
            assert forall|i: int, j: int| 0 <= i < r.len() && 0 <= j < r.len() && i != j implies r[i]
                != r[j] by {
                if i < f.len() && j < f.len() {
                    assert(f[i] != f[j]);
                } else if i < f.len() {
                    assert(f.contains(f[i]));
                } else {
                    assert(f.contains(f[j]));
                }
            }
        }
    }
}

/// Sorting keeps the carets.
pub proof fn lemma_sorted_holds(list: Seq<Flagged>, key: spec_fn(Flagged) -> int)
    ensures
        forall|y: Flagged| #[trigger] sorted_by(list, key).contains(y) == list.contains(y),
        list.no_duplicates() ==> sorted_by(list, key).no_duplicates(),
        sorted_by(list, key).len() == list.len(),
    decreases list.len(),
{
    if list.len() > 0 {
        let l = list.drop_last();
        lemma_sorted_holds(l, key);
        let f = sorted_by(l, key);
        lemma_insert_holds(f, list.last(), key);
        assert forall|y: Flagged| #[trigger] list.contains(y) == (l.contains(y) || y
            == list.last()) by {
            if list.contains(y) {
                let k = choose|k: int| 0 <= k < list.len() && list[k] == y;
                if k < l.len() {
                    assert(l[k] == y);
                }
            }
            if l.contains(y) {
                let k = choose|k: int| 0 <= k < l.len() && l[k] == y;
                assert(list[k] == y);
            }
            assert(list[list.len() - 1] == list.last());
        }
        assert forall|y: Flagged| #[trigger] sorted_by(list, key).contains(y)
            == list.contains(y) by {
            assert(f.contains(y) == l.contains(y));
        }
        if list.no_duplicates() {
            assert forall|i: int, j: int| 0 <= i < l.len() && 0 <= j < l.len() && i != j implies l[i]
                != l[j] by {
                assert(list[i] != list[j]);
            }
            if f.contains(list.last()) {
                assert(l.contains(list.last()));
                let k = choose|k: int| 0 <= k < l.len() && l[k] == list.last();
                assert(list[k] != list[list.len() - 1]);
            }
        }
    }
}

/// One element more on the list.
proof fn lemma_stands_push(list: Seq<Flagged>, x: Flagged, p: int)
    ensures
        stands(list.push(x), p) == (stands(list, p) || x.caret.cursor == p),
        leads(list.push(x), p) == (leads(list, p) || (x.caret.cursor == p && x.primary)),
{
    let r = list.push(x);
    assert(r[list.len() as int] == x);
    if stands(r, p) {
        let k = choose|k: int| 0 <= k < r.len() && (#[trigger] r[k]).caret.cursor == p;
        if k < list.len() {
            assert(list[k].caret.cursor == p);
        }
    }
    if stands(list, p) {
        let k = choose|k: int| 0 <= k < list.len() && (#[trigger] list[k]).caret.cursor == p;
        assert(r[k].caret.cursor == p);
    }
    if leads(r, p) {
        let k = choose|k: int|
            0 <= k < r.len() && (#[trigger] r[k]).caret.cursor == p && r[k].primary;
        if k < list.len() {
            assert(list[k].caret.cursor == p && list[k].primary);
        }
    }
    if leads(list, p) {
        let k = choose|k: int|
            0 <= k < list.len() && (#[trigger] list[k]).caret.cursor == p && list[k].primary;
        assert(r[k].caret.cursor == p && r[k].primary);
    }
}

/// Merging keeps the places of the carets, and that of the primary one.
pub proof fn lemma_merged_stands(list: Seq<Flagged>, p: int)
    ensures
        stands(merged(list), p) == stands(list, p),
        leads(merged(list), p) == leads(list, p),
    decreases list.len(),
{
    if list.len() > 0 {
        let l = list.drop_last();
        let x = list.last();
        let f = merged(l);
        lemma_merged_stands(l, p);
        assert(list =~= l.push(x));
        lemma_stands_push(l, x, p);
        if f.len() > 0 && f.last().caret.cursor == x.caret.cursor {
            let y = Flagged {
                caret: f.last().caret,
                primary: f.last().primary || x.primary,
            };
            assert(f =~= f.drop_last().push(f.last()));
            lemma_stands_push(f.drop_last(), f.last(), p);
            lemma_stands_push(f.drop_last(), y, p);
        } else {
            lemma_stands_push(f, x, p);
        }
    }
}

/// Carets in their places stand where those of the list do, the primary one where
/// it did.
pub proof fn lemma_installed(st: BufferState, list: Seq<Flagged>, q: int, ok: spec_fn(CaretAt) -> bool)
    requires
        leads(list, q),
        forall|p: int| #[trigger] leads(list, p) ==> p == q,
        all_carets(list, ok),
    ensures
        st.installed(list).cursor == q,
        forall|p: int| #[trigger] st.installed(list).caret_stands(p) == stands(list, p),
        forall|c: CaretAt| #[trigger] st.installed(list).has_caret(c) ==> ok(c),
{
    let b = sorted_by(list, cursor_key());
    lemma_sorted_holds(list, cursor_key());
    lemma_sorted_by(list, cursor_key(), ok);
    lemma_merged(b, ok);
    let m = merged(b);
    assert forall|p: int| #[trigger] stands(m, p) == stands(list, p) && leads(m, p) == leads(
        list,
        p,
    ) by {
        lemma_merged_stands(b, p);
        if stands(list, p) {
            let k = choose|k: int| 0 <= k < list.len() && (#[trigger] list[k]).caret.cursor == p;
            assert(list.contains(list[k]));
            assert(b.contains(list[k]));
        }
        if stands(b, p) {
            let k = choose|k: int| 0 <= k < b.len() && (#[trigger] b[k]).caret.cursor == p;
            assert(b.contains(b[k]));
            assert(list.contains(b[k]));
        }
        if leads(list, p) {
            let k = choose|k: int|
                0 <= k < list.len() && (#[trigger] list[k]).caret.cursor == p && list[k].primary;
            assert(list.contains(list[k]));
            assert(b.contains(list[k]));
        }
        if leads(b, p) {
            let k = choose|k: int|
                0 <= k < b.len() && (#[trigger] b[k]).caret.cursor == p && b[k].primary;
            assert(b.contains(b[k]));
            assert(list.contains(b[k]));
        }
    }
    assert(stands(m, q) == stands(list, q));
    let i = choose|k: int| 0 <= k < m.len() && (#[trigger] m[k]).caret.cursor == q && m[k].primary;
    lemma_primary_found(m, 0, i);
    let k = primary_from(m, 0);
    lemma_primary_from(m, 0);
    assert(leads(m, m[k].caret.cursor));
    assert(stands(m, m[k].caret.cursor) == stands(list, m[k].caret.cursor));
    let r = st.installed(list);
    assert(r.cursor == q);
    assert(r.primary() == m[k].caret);
    let rest = m.remove(k);
    assert forall|p: int| #[trigger] r.caret_stands(p) == stands(list, p) by {
        assert(stands(m, p) == stands(list, p));
        if stands(m, p) {
            let j = choose|j: int| 0 <= j < m.len() && (#[trigger] m[j]).caret.cursor == p;
            if j == k {
                assert(r.has_caret(r.primary()));
            } else {
                let o = if j < k {
                    j
                } else {
                    j - 1
                };
                assert(rest[o] == m[j]);
                assert(r.carets[o] == m[j].caret);
                assert(r.has_caret(m[j].caret));
            }
        }
        if r.caret_stands(p) {
            let c = choose|c: CaretAt| #[trigger] r.has_caret(c) && c.cursor == p;
            lemma_one_of(r, m, k, c);
        }
    }
    assert forall|c: CaretAt| #[trigger] r.has_caret(c) implies ok(c) by {
        lemma_one_of(r, m, k, c);
        let j = choose|j: int| 0 <= j < m.len() && (#[trigger] m[j]).caret == c;
        assert(ok(m[j].caret));
    }
}

/// A caret of the buffer is one of those that were put in their places.
proof fn lemma_one_of(r: BufferState, m: Seq<Flagged>, k: int, c: CaretAt)
    requires
        0 <= k < m.len(),
        r.primary() == m[k].caret,
        r.carets == unflagged(m.remove(k)),
        r.has_caret(c),
    ensures
        exists|j: int| 0 <= j < m.len() && (#[trigger] m[j]).caret == c,
        stands(m, c.cursor),
{
    if c == r.primary() {
        assert(m[k].caret == c);
    } else {
        let o = choose|o: int| 0 <= o < r.carets.len() && r.carets[o] == c;
        let j = if o < k {
            o
        } else {
            o + 1
        };
        assert(m.remove(k)[o] == m[j]);
        assert(m[j].caret == c);
    }
}

proof fn lemma_primary_found(m: Seq<Flagged>, from: int, i: int)
    requires
        0 <= from <= i < m.len(),
        m[i].primary,
    ensures
        from <= primary_from(m, from) < m.len(),
        m[primary_from(m, from)].primary,
    decreases m.len() - from,
{
    if !m[from].primary {
        lemma_primary_found(m, from + 1, i);
    }
}

// ---- edits --------------------------------------------------------------

/// `b` is what is left of `a` without the characters at the places of `gone` and
/// with `t` put in at the places of `at`. Each caret is behind what is left of the
/// text up to the end of its selection, or up to its own place, with what was put
/// in there.
#[verifier::opaque]
pub open spec fn edit_leaves(
    a: BufferState,
    gone: spec_fn(int) -> bool,
    at: spec_fn(int) -> bool,
    t: Seq<char>,
    b: BufferState,
) -> bool {
    &&& b.text == woven(a.text, gone, at, t, a.text.len() as int)
    &&& b.cursor == woven(a.text, gone, at, t, high(a.primary())).len()
    &&& forall|p: int| #[trigger]
        b.caret_stands(p) == exists|c: CaretAt| #[trigger]
            a.has_caret(c) && woven(a.text, gone, at, t, high(c)).len() == p
}

pub proof fn lemma_caret_within(st: BufferState, c: CaretAt)
    requires
        st.wf(),
        st.selections_ok(),
        st.has_caret(c),
    ensures
        0 <= low(c) <= high(c) <= st.text.len(),
        low(c) == c.start(),
        high(c) == c.end(),
        c.selecting() == (low(c) < high(c)),
        !c.selecting() ==> low(c) == c.cursor,
{
    if c != st.primary() {
        let k = choose|k: int| 0 <= k < st.carets.len() && st.carets[k] == c;
        assert(crate::buffer::state::selects_within(st.carets[k], st.text.len() as int));
    }
}

/// The same characters gone and the same places filled leave the same.
pub proof fn lemma_leaves_same(
    a: BufferState,
    g: spec_fn(int) -> bool,
    h: spec_fn(int) -> bool,
    x: spec_fn(int) -> bool,
    y: spec_fn(int) -> bool,
    t: Seq<char>,
    b: BufferState,
)
    requires
        a.wf(),
        a.selections_ok(),
        edit_leaves(a, g, x, t, b),
        forall|i: int| 0 <= i < a.text.len() ==> #[trigger] g(i) == h(i),
        t.len() == 0 || forall|i: int| 0 <= i <= a.text.len() ==> #[trigger] x(i) == y(i),
    ensures
        edit_leaves(a, h, y, t, b),
{
    reveal(edit_leaves);
    let s = a.text;
    lemma_woven_same(s, g, h, x, y, t, s.len() as int);
    lemma_caret_within(a, a.primary());
    lemma_woven_same(s, g, h, x, y, t, high(a.primary()));
    assert forall|c: CaretAt| #[trigger] a.has_caret(c) implies woven(s, g, x, t, high(c)) == woven(
        s,
        h,
        y,
        t,
        high(c),
    ) by {
        lemma_caret_within(a, c);
        lemma_woven_same(s, g, h, x, y, t, high(c));
    }
    assert forall|p: int| #[trigger] b.caret_stands(p) == exists|c: CaretAt| #[trigger]
        a.has_caret(c) && woven(s, h, y, t, high(c)).len() == p by {
        if b.caret_stands(p) {
            let c = choose|c: CaretAt| #[trigger]
                a.has_caret(c) && woven(s, g, x, t, high(c)).len() == p;
            assert(a.has_caret(c) && woven(s, h, y, t, high(c)).len() == p);
        }
        if exists|c: CaretAt| #[trigger]
            a.has_caret(c) && woven(s, h, y, t, high(c)).len() == p {
            let c = choose|c: CaretAt| #[trigger]
                a.has_caret(c) && woven(s, h, y, t, high(c)).len() == p;
            assert(a.has_caret(c) && woven(s, g, x, t, high(c)).len() == p);
        }
    }
}

/// The carets in order: all of them, one behind the other.
pub proof fn lemma_by_start(st: BufferState)
    requires
        st.wf(),
        st.selections_ok(),
        st.carets_apart(),
    ensures
        ({
            let list = st.by_start();
            &&& list.len() == st.carets.len() + 1
            &&& forall|k: int|
                0 <= k < list.len() ==> st.has_caret((#[trigger] list[k]).caret) && list[k].primary
                    == (list[k].caret.cursor == st.cursor)
            &&& forall|c: CaretAt| #[trigger]
                st.has_caret(c) ==> exists|k: int|
                    0 <= k < list.len() && (#[trigger] list[k]).caret == c
            &&& forall|j: int, k: int|
                0 <= j < k < list.len() ==> high((#[trigger] list[j]).caret) < low(
                    (#[trigger] list[k]).caret,
                )
        }),
{
    let all = st.flagged();
    let list = st.by_start();
    let len = st.text.len() as int;
    assert forall|k: int| 0 <= k < all.len() implies st.has_caret((#[trigger] all[k]).caret)
        && all[k].primary == (all[k].caret.cursor == st.cursor) by {
        if k > 0 {
            assert(all[k].caret == st.carets[k - 1]);
            assert(st.carets.contains(st.carets[k - 1]));
        }
    }
    assert forall|i: int, j: int| 0 <= i < all.len() && 0 <= j < all.len() && i != j implies all[i]
        != all[j] && all[i].caret.cursor != all[j].caret.cursor by {
        if i > 0 {
            assert(all[i].caret == st.carets[i - 1]);
        }
        if j > 0 {
            assert(all[j].caret == st.carets[j - 1]);
        }
        if i > 0 && j > 0 {
            if i < j {
                assert(st.carets[i - 1].cursor < st.carets[j - 1].cursor);
            } else {
                assert(st.carets[j - 1].cursor < st.carets[i - 1].cursor);
            }
        }
    }
    assert(all.no_duplicates());
    lemma_sorted_holds(all, start_key());
    lemma_sorted_by(all, start_key(), |c: CaretAt| true);
    assert forall|k: int| 0 <= k < list.len() implies st.has_caret((#[trigger] list[k]).caret)
        && list[k].primary == (list[k].caret.cursor == st.cursor) by {
        assert(list.contains(list[k]));
        assert(all.contains(list[k]));
    }
    assert forall|c: CaretAt| #[trigger] st.has_caret(c) implies exists|k: int|
        0 <= k < list.len() && (#[trigger] list[k]).caret == c by {
        let i = if c == st.primary() {
            0
        } else {
            1 + choose|k: int| 0 <= k < st.carets.len() && st.carets[k] == c
        };
        assert(all[i].caret == c);
        assert(all.contains(all[i]));
        assert(list.contains(all[i]));
    }
    assert forall|j: int, k: int| 0 <= j < k < list.len() implies high((#[trigger] list[j]).caret)
        < low((#[trigger] list[k]).caret) by {
        let a = list[j];
        let b = list[k];
        assert(list.contains(a) && list.contains(b));
        assert(all.contains(a) && all.contains(b));
        let x = choose|x: int| 0 <= x < all.len() && all[x] == a;
        let y = choose|y: int| 0 <= y < all.len() && all[y] == b;
        assert(a != b);
        assert(a.caret.cursor != b.caret.cursor);
        assert(st.has_caret(a.caret) && st.has_caret(b.caret));
        lemma_caret_within(st, a.caret);
        lemma_caret_within(st, b.caret);
        assert(start_key()(list[j]) <= start_key()(list[k]));
    }
}

/// What the carets take lies in order too.
proof fn lemma_plans_climb(st: BufferState, p: Plan)
    requires
        st.wf(),
        st.selections_ok(),
        st.carets_apart(),
        p is WordLeft || p is LineStart ==> st.nothing_selected(),
    ensures
        splices_climb(st.plans(p), p.ins()),
        idle_apart(st.by_start(), st.plans(p)),
        p is Type ==> forall|k: int|
            0 <= k < st.plans(p).len() ==> (#[trigger] st.plans(p)[k]) is Some,
{
    let s = st.text;
    let list = st.by_start();
    let plans = st.plans(p);
    lemma_by_start(st);
    lemma_plans_fit(st, p);
    assert forall|k: int| 0 <= k < plans.len() implies ((#[trigger] plans[k]) matches Some(x)
        ==> x.ins == p.ins()) by {
        assert(st.has_caret(list[k].caret));
    }
    assert forall|j: int, k: int|
        0 <= j < k < plans.len() && (#[trigger] plans[j]) is Some && (#[trigger] plans[k]) is Some
            implies plans[j]->0.from <= plans[k]->0.from && plans[j]->0.to <= plans[k]->0.to && (
    p.ins().len() > 0 ==> plans[j]->0.to < plans[k]->0.from) by {
        let a = list[j].caret;
        let b = list[k].caret;
        assert(st.has_caret(a) && st.has_caret(b));
        lemma_caret_within(st, a);
        lemma_caret_within(st, b);
        assert(high(a) < low(b));
        if p is WordLeft {
            lemma_words_climb(s, a.cursor, b.cursor);
        }
        if p is LineStart {
            crate::lines::lemma_line_of_monotone(s, a.cursor, b.cursor);
            crate::lines::lemma_line_around(s, a.cursor);
            crate::lines::lemma_line_around(s, b.cursor);
            crate::buffer::edits::lemma_starts_in_order(
                s,
                crate::lines::line_of(s, a.cursor),
                crate::lines::line_of(s, b.cursor),
            );
        }
    }
    assert forall|j: int, k: int|
        0 <= j < k < plans.len() && (#[trigger] plans[j]) is Some && (#[trigger] plans[k]) is None
            implies plans[j]->0.to <= list[k].caret.cursor by {
        let a = list[j].caret;
        let b = list[k].caret;
        assert(st.has_caret(a) && st.has_caret(b));
        lemma_caret_within(st, a);
        lemma_caret_within(st, b);
        assert(high(a) < low(b));
    }
}

/// Of two places the later one has no earlier word before it.
proof fn lemma_words_climb(s: Seq<char>, a: int, b: int)
    requires
        0 <= a <= b <= s.len(),
    ensures
        crate::buffer::state::prev_word(s, a) <= crate::buffer::state::prev_word(s, b),
{
    let sep = crate::buffer::state::separators();
    let wor = crate::buffer::state::words();
    let m = crate::buffer::state::back_while(s, a, sep);
    let r = crate::buffer::state::back_while(s, m, wor);
    let n = crate::buffer::state::back_while(s, b, sep);
    let q = crate::buffer::state::back_while(s, n, wor);
    crate::buffer::moves::lemma_back_while(s, a, sep);
    crate::buffer::moves::lemma_back_while(s, m, wor);
    crate::buffer::moves::lemma_back_while(s, b, sep);
    crate::buffer::moves::lemma_back_while(s, n, wor);
    if q < r {
        assert(!wor(s[r - 1]));
        if r - 1 < n {
            assert(wor(s[r - 1]));
        }
        if r < m {
            assert(wor(s[r]));
            assert(sep(s[r]));
        }
    }
}

/// The text that the splices of an edit weave, and where they leave the carets.
proof fn lemma_many_woven(st: BufferState, p: Plan)
    requires
        st.wf(),
        st.selections_ok(),
        st.carets_apart(),
        p is WordLeft || p is LineStart ==> st.nothing_selected(),
    ensures
        ({
            let s = st.text;
            let list = st.by_start();
            let g = |i: int| taken_by(st.plans(p), i);
            let a = |i: int| put_by(st.plans(p), i);
            let r = splice_all(s, list, st.plans(p));
            &&& woven(s, g, a, p.ins(), s.len() as int) == r.out + s.skip(r.done)
            &&& r.carets.len() == list.len()
            &&& forall|k: int|
                0 <= k < list.len() ==> (#[trigger] r.carets[k]).caret.cursor == woven(
                    s,
                    g,
                    a,
                    p.ins(),
                    high(list[k].caret),
                ).len() && r.carets[k].caret.anchor is None && r.carets[k].primary
                    == list[k].primary
        }),
{
    let s = st.text;
    let list = st.by_start();
    let plans = st.plans(p);
    let t = p.ins();
    let g = |i: int| taken_by(plans, i);
    let a = |i: int| put_by(plans, i);
    lemma_plans_fit(st, p);
    lemma_plans_climb(st, p);
    lemma_by_start(st);
    lemma_splices_weave(s, list, plans, t);
    lemma_done(s, list, plans, t);
    let r = splice_all(s, list, plans);
    let d = r.done;
    // Nothing happens behind the last splice.
    assert forall|i: int| d <= i < s.len() implies !#[trigger] g(i) by {
        assert(!taken_by(plans, i));
    }
    assert forall|i: int| d < i <= s.len() implies !#[trigger] a(i) by {
        assert(!put_by(plans, i));
    }
    lemma_woven_kept(s, g, a, t, d, s.len() as int);
    assert(s.subrange(d, s.len() as int) =~= s.skip(d));
    assert(woven(s, g, a, t, s.len() as int) == r.out + s.skip(d));
    // Every caret ends up behind what is left up to its end.
    assert forall|k: int| 0 <= k < list.len() implies (#[trigger] r.carets[k]).caret.cursor
        == woven(s, g, a, t, high(list[k].caret)).len() && r.carets[k].caret.anchor is None
        && r.carets[k].primary == list[k].primary by {
        let c = list[k].caret;
        assert(st.has_caret(c));
        lemma_caret_within(st, c);
        if p is Delete && plans[k] is Some && !c.selecting() {
            assert(g(c.cursor)) by {
                assert(plans[k]->0.from <= c.cursor < plans[k]->0.to);
            }
            lemma_woven_gone(s, g, a, t, c.cursor, c.cursor + 1);
        }
    }
}

/// What an edit at every caret leaves.
pub proof fn lemma_many_leave(st: BufferState, p: Plan)
    requires
        st.wf(),
        st.selections_ok(),
        st.carets_apart(),
        p is WordLeft || p is LineStart ==> st.nothing_selected(),
    ensures
        edit_leaves(
            st,
            |i: int| taken_by(st.plans(p), i),
            |i: int| put_by(st.plans(p), i),
            p.ins(),
            st.multi_edited(p),
        ),
        st.edits(p) ==> forall|c: CaretAt| #[trigger]
            st.multi_edited(p).has_caret(c) ==> c.anchor is None,
{
    if st.edits(p) {
        lemma_edits_leave(st, p);
    } else {
        lemma_idle_leaves(st, p);
    }
}

/// What an edit at every caret leaves where it has something to do.
proof fn lemma_edits_leave(st: BufferState, p: Plan)
    requires
        st.wf(),
        st.selections_ok(),
        st.carets_apart(),
        p is WordLeft || p is LineStart ==> st.nothing_selected(),
        st.edits(p),
    ensures
        edit_leaves(
            st,
            |i: int| taken_by(st.plans(p), i),
            |i: int| put_by(st.plans(p), i),
            p.ins(),
            st.multi_edited(p),
        ),
        forall|c: CaretAt| #[trigger] st.multi_edited(p).has_caret(c) ==> c.anchor is None,
{
    reveal(edit_leaves);
    let s = st.text;
    let list = st.by_start();
    let plans = st.plans(p);
    let t = p.ins();
    let g = |i: int| taken_by(plans, i);
    let a = |i: int| put_by(plans, i);
    lemma_by_start(st);
    lemma_many_woven(st, p);
    let r = splice_all(s, list, plans);
    let b = st.multi_edited(p);
    let d = r.done;
    let text = r.out + s.skip(d);
    let goals = with_goals(text, r.carets);
    let mid = BufferState { text, ..st.checkpointed(p.kind()) };
    let q = woven(s, g, a, t, high(st.primary())).len() as int;
    assert(st.has_caret(st.primary()));
    let i = choose|k: int| 0 <= k < list.len() && (#[trigger] list[k]).caret == st.primary();
    assert(r.carets[i].primary);
    assert(goals[i].caret.cursor == q && goals[i].primary);
    assert forall|x: int| #[trigger] leads(goals, x) implies x == q by {
        let k = choose|k: int|
            0 <= k < goals.len() && (#[trigger] goals[k]).caret.cursor == x && goals[k].primary;
        assert(r.carets[k].primary);
        assert(list[k].caret.cursor == st.cursor);
        if k < i {
            assert(high(list[k].caret) < low(list[i].caret));
        } else if i < k {
            assert(high(list[i].caret) < low(list[k].caret));
        }
        lemma_caret_within(st, list[k].caret);
        lemma_caret_within(st, list[i].caret);
    }
    let unset = |c: CaretAt| c.anchor is None;
    assert forall|k: int| 0 <= k < goals.len() implies unset((#[trigger] goals[k]).caret) by {
        assert(r.carets[k].caret.anchor is None);
    }
    lemma_installed(mid, goals, q, unset);
    let inst = mid.installed(goals);
    assert(b.cursor == inst.cursor && b.carets == inst.carets && b.text == text && b.primary()
        == inst.primary());
    assert forall|c: CaretAt| #[trigger] b.has_caret(c) implies c.anchor is None by {
        assert(inst.has_caret(c));
        assert(unset(c));
    }
    assert forall|x: int| #[trigger] b.caret_stands(x) == exists|c: CaretAt| #[trigger]
        st.has_caret(c) && woven(s, g, a, t, high(c)).len() == x by {
        if b.caret_stands(x) {
            let c = choose|c: CaretAt| #[trigger] b.has_caret(c) && c.cursor == x;
            assert(inst.has_caret(c));
            assert(inst.caret_stands(x));
            assert(stands(goals, x));
            let k = choose|k: int|
                0 <= k < goals.len() && (#[trigger] goals[k]).caret.cursor == x;
            assert(r.carets[k].caret.cursor == x);
            assert(st.has_caret(list[k].caret));
        }
        if exists|c: CaretAt| #[trigger]
            st.has_caret(c) && woven(s, g, a, t, high(c)).len() == x {
            let c = choose|c: CaretAt| #[trigger]
                st.has_caret(c) && woven(s, g, a, t, high(c)).len() == x;
            let k = choose|k: int| 0 <= k < list.len() && (#[trigger] list[k]).caret == c;
            assert(r.carets[k].caret.cursor == x);
            assert(goals[k].caret.cursor == x);
            assert(stands(goals, x));
            assert(inst.caret_stands(x));
            let e = choose|e: CaretAt| #[trigger] inst.has_caret(e) && e.cursor == x;
            assert(b.has_caret(e));
        }
    }
}

/// Nothing to edit leaves everything.
proof fn lemma_idle_leaves(st: BufferState, p: Plan)
    requires
        st.wf(),
        st.selections_ok(),
        st.carets_apart(),
        !st.edits(p),
    ensures
        edit_leaves(
            st,
            |i: int| taken_by(st.plans(p), i),
            |i: int| put_by(st.plans(p), i),
            p.ins(),
            st,
        ),
{
    reveal(edit_leaves);
    let s = st.text;
    let plans = st.plans(p);
    let list = st.by_start();
    let g = |i: int| taken_by(plans, i);
    let a = |i: int| put_by(plans, i);
    let t = p.ins();
    lemma_by_start(st);
    assert forall|i: int| !#[trigger] g(i) && !a(i) by {
        if taken_by(plans, i) {
            let k = choose|k: int|
                0 <= k < plans.len() && (#[trigger] plans[k]) is Some && plans[k]->0.from <= i
                    < plans[k]->0.to;
            assert(st.plans(p)[k] is Some);
        }
        if put_by(plans, i) {
            let k = choose|k: int|
                0 <= k < plans.len() && (#[trigger] plans[k]) is Some && plans[k]->0.from == i;
            assert(st.plans(p)[k] is Some);
        }
    }
    assert forall|n: int| 0 <= n <= s.len() implies #[trigger] woven(s, g, a, t, n) == s.take(
        n,
    ) by {
        assert(!g(n) && !a(n));
        assert(!g(0) && !a(0));
        assert forall|i: int| 0 < i <= n implies !#[trigger] a(i) by {
            assert(!g(i));
        }
        lemma_woven_kept(s, g, a, t, 0, n);
        assert(woven(s, g, a, t, 0) =~= Seq::empty());
        assert(Seq::<char>::empty() + s.subrange(0, n) =~= s.take(n));
    }
    assert(woven(s, g, a, t, s.len() as int) == s.take(s.len() as int));
    assert(s.take(s.len() as int) =~= s);
    assert forall|c: CaretAt| #[trigger] st.has_caret(c) implies woven(s, g, a, t, high(c)).len()
        == c.cursor by {
        lemma_caret_within(st, c);
        let k = choose|k: int| 0 <= k < list.len() && (#[trigger] list[k]).caret == c;
        assert(plans[k] == plan_at(s, p, c));
        assert(plans[k] is None) by {
            if plans[k] is Some {
                assert(st.plans(p)[k] is Some);
            }
        }
        assert(!c.selecting());
        assert(woven(s, g, a, t, high(c)) == s.take(high(c)));
    }
    assert(st.has_caret(st.primary()));
    assert forall|x: int| #[trigger] st.caret_stands(x) == exists|c: CaretAt| #[trigger]
        st.has_caret(c) && woven(s, g, a, t, high(c)).len() == x by {
        if st.caret_stands(x) {
            let c = choose|c: CaretAt| #[trigger] st.has_caret(c) && c.cursor == x;
            assert(woven(s, g, a, t, high(c)).len() == x);
        }
    }
}

/// What one splice at the one caret leaves.
pub proof fn lemma_one_leaves(
    st: BufferState,
    from: int,
    to: int,
    t: Seq<char>,
    b: BufferState,
)
    requires
        st.wf(),
        st.selections_ok(),
        st.carets.len() == 0,
        b.carets.len() == 0,
        0 <= from <= to <= st.text.len(),
        high(st.primary()) == to || (high(st.primary()) == from && t.len() == 0),
        b.text == spliced(st.text, from, to, t),
        b.cursor == from + t.len(),
    ensures
        edit_leaves(st, |i: int| from <= i < to, |i: int| i == from, t, b),
{
    reveal(edit_leaves);
    let s = st.text;
    let g = |i: int| from <= i < to;
    let a = |i: int| i == from;
    let none = |i: int| false;
    assert(woven(s, g, a, t, from) == s.take(from) + t) by {
        if from == 0 {
            assert(s.take(0) =~= Seq::empty());
        } else {
            assert(woven(s, g, a, t, 0) =~= Seq::empty());
            lemma_woven_kept(s, g, a, t, 0, from - 1);
            assert(Seq::<char>::empty() + s.subrange(0, from - 1) =~= s.take(from - 1));
            assert(s.take(from - 1).push(s[from - 1]) =~= s.take(from));
        }
    }
    lemma_woven_gone(s, g, a, t, from, to);
    lemma_woven_kept(s, g, a, t, to, s.len() as int);
    assert(s.subrange(to, s.len() as int) =~= s.skip(to));
    assert(woven(s, g, a, t, high(st.primary())).len() == b.cursor);
    assert(st.has_caret(st.primary()));
    assert(b.has_caret(b.primary()));
    assert forall|x: int| #[trigger] b.caret_stands(x) == exists|c: CaretAt| #[trigger]
        st.has_caret(c) && woven(s, g, a, t, high(c)).len() == x by {
        if b.caret_stands(x) {
            assert(x == b.cursor);
            assert(st.has_caret(st.primary()) && woven(s, g, a, t, high(st.primary())).len() == x);
        }
        if exists|c: CaretAt| #[trigger] st.has_caret(c) && woven(s, g, a, t, high(c)).len() == x {
            let c = choose|c: CaretAt| #[trigger]
                st.has_caret(c) && woven(s, g, a, t, high(c)).len() == x;
            assert(c == st.primary());
        }
    }
}

} // verus!
