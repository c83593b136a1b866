//! Carets in order: sorting, merging and the facts about both.

use crate::buffer::state::{
    carets_wf, cursor_key, insert_by, merged, placed, primary_from, sorted_by, start_key,
    strictly_placed, unflagged, without, CaretAt, Flagged,
};
use crate::buffer::Caret;
use vstd::prelude::*;

verus! {

/// A list of carets, each with its mark, as plain values.
pub open spec fn flags_view(v: Seq<(Caret, bool)>) -> Seq<Flagged> {
    Seq::new(v.len(), |i: int| Flagged { caret: v[i].0@, primary: v[i].1 })
}

/// A list of carets as plain values.
pub open spec fn carets_view(v: Seq<Caret>) -> Seq<CaretAt> {
    Seq::new(v.len(), |i: int| v[i]@)
}

/// Every caret of the list satisfies `p`.
pub open spec fn all_carets(list: Seq<Flagged>, p: spec_fn(CaretAt) -> bool) -> bool {
    forall|i: int| 0 <= i < list.len() ==> p((#[trigger] list[i]).caret)
}

/// The keys do not decrease along the list.
pub open spec fn in_order(list: Seq<Flagged>, key: spec_fn(Flagged) -> int) -> bool {
    forall|i: int, j: int| 0 <= i < j < list.len() ==> key(list[i]) <= key(list[j])
}

/// Putting an element in its place is inserting it at the right index.
pub proof fn lemma_insert_by(list: Seq<Flagged>, x: Flagged, key: spec_fn(Flagged) -> int, j: int)
    requires
        0 <= j <= list.len(),
        forall|k: int| j <= k < list.len() ==> key(#[trigger] list[k]) > key(x),
        j > 0 ==> key(list[j - 1]) <= key(x),
    ensures
        insert_by(list, x, key) == list.insert(j, x),
    decreases list.len(),
{
    if list.len() == 0 || key(list.last()) <= key(x) {
        assert(list.insert(j, x) =~= list.push(x));
    } else {
        lemma_insert_by(list.drop_last(), x, key, j);
        assert(list.drop_last().insert(j, x).push(list.last()) =~= list.insert(j, x));
    }
}

/// Putting an element in its place keeps the order and what holds of every
/// caret.
pub proof fn lemma_insert_by_keeps(
    list: Seq<Flagged>,
    x: Flagged,
    key: spec_fn(Flagged) -> int,
    p: spec_fn(CaretAt) -> bool,
)
    requires
        in_order(list, key),
        all_carets(list, p),
        p(x.caret),
    ensures
        insert_by(list, x, key).len() == list.len() + 1,
        in_order(insert_by(list, x, key), key),
        all_carets(insert_by(list, x, key), p),
        insert_by(list, x, key).last() == x || (list.len() > 0 && insert_by(list, x, key).last()
            == list.last()),
    decreases list.len(),
{
    if list.len() == 0 || key(list.last()) <= key(x) {
    } else {
        lemma_insert_by_keeps(list.drop_last(), x, key, p);
        let r = insert_by(list.drop_last(), x, key);
        assert forall|i: int, j: int| 0 <= i < j < r.push(list.last()).len() implies key(
            r.push(list.last())[i],
        ) <= key(r.push(list.last())[j]) by {
            if j == r.len() {
                assert(key(r[i]) <= key(r.last()));
                if list.len() > 1 && r.last() == list.drop_last().last() {
                    assert(key(list[list.len() - 2]) <= key(list.last()));
                }
            }
        }
    }
}

/// Sorting keeps the length and what holds of every caret, and puts the list
/// in order.
pub proof fn lemma_sorted_by(
    list: Seq<Flagged>,
    key: spec_fn(Flagged) -> int,
    p: spec_fn(CaretAt) -> bool,
)
    requires
        all_carets(list, p),
    ensures
        sorted_by(list, key).len() == list.len(),
        in_order(sorted_by(list, key), key),
        all_carets(sorted_by(list, key), p),
    decreases list.len(),
{
    if list.len() > 0 {
        assert(all_carets(list.drop_last(), p)) by {
            assert forall|i: int| 0 <= i < list.drop_last().len() implies p(
                (#[trigger] list.drop_last()[i]).caret,
            ) by {
                assert(list.drop_last()[i] == list[i]);
            }
        }
        lemma_sorted_by(list.drop_last(), key, p);
        lemma_insert_by_keeps(sorted_by(list.drop_last(), key), list.last(), key, p);
    }
}

/// What holds of every caret holds of those that are picked out.
pub proof fn lemma_filter_keeps(
    list: Seq<Flagged>,
    f: spec_fn(Flagged) -> bool,
    p: spec_fn(CaretAt) -> bool,
)
    requires
        all_carets(list, p),
    ensures
        all_carets(list.filter(f), p),
    decreases list.len(),
{
    reveal(Seq::filter);
    if list.len() > 0 {
        let l = list.drop_last();
        assert forall|i: int| 0 <= i < l.len() implies p((#[trigger] l[i]).caret) by {
            assert(l[i] == list[i]);
        }
        lemma_filter_keeps(l, f, p);
        assert(list[list.len() - 1] == list.last());
    }
}

/// Merging an ordered list leaves carets at strictly increasing positions.
pub proof fn lemma_merged(list: Seq<Flagged>, p: spec_fn(CaretAt) -> bool)
    requires
        in_order(list, cursor_key()),
        all_carets(list, p),
    ensures
        merged(list).len() <= list.len(),
        list.len() > 0 ==> merged(list).len() > 0,
        list.len() > 0 ==> merged(list).last().caret.cursor == list.last().caret.cursor,
        all_carets(merged(list), p),
        strictly_placed(unflagged(merged(list))),
    decreases list.len(),
{
    if list.len() > 0 {
        let l = list.drop_last();
        assert(in_order(l, cursor_key())) by {
            assert forall|i: int, j: int| 0 <= i < j < l.len() implies cursor_key()(l[i])
                <= cursor_key()(l[j]) by {
                assert(cursor_key()(list[i]) <= cursor_key()(list[j]));
            }
        }
        assert(all_carets(l, p)) by {
            assert forall|i: int| 0 <= i < l.len() implies p((#[trigger] l[i]).caret) by {
                assert(l[i] == list[i]);
            }
        }
        lemma_merged(l, p);
        let front = merged(l);
        let x = list.last();
        let r = merged(list);
        if l.len() > 0 {
            assert(cursor_key()(list[list.len() - 2]) <= cursor_key()(list[list.len() - 1]));
            assert(front.last().caret.cursor <= x.caret.cursor);
        }
        if front.len() > 0 && front.last().caret.cursor == x.caret.cursor {
            assert(unflagged(r) =~= unflagged(front));
            assert forall|i: int| 0 <= i < r.len() implies p((#[trigger] r[i]).caret) by {
                assert(r[i].caret == front[i].caret);
            }
        } else {
            assert forall|i: int, j: int| 0 <= i < j < unflagged(r).len() implies unflagged(
                r,
            )[i].cursor < unflagged(r)[j].cursor by {
                assert(unflagged(r)[i] == unflagged(front)[i]);
                if j < front.len() {
                    assert(unflagged(r)[j] == unflagged(front)[j]);
                } else {
                    if i < front.len() - 1 {
                        assert(unflagged(front)[i].cursor < unflagged(
                            front,
                        )[front.len() - 1].cursor);
                    }
                    assert(unflagged(front)[front.len() - 1] == front.last().caret);
                }
            }
        }
    }
}

/// The index of the primary caret is inside the list.
pub proof fn lemma_primary_from(list: Seq<Flagged>, i: int)
    requires
        0 <= i <= list.len(),
        list.len() > 0,
    ensures
        0 <= primary_from(list, i) < list.len(),
    decreases list.len() - i,
{
    if i < list.len() && !list[i].primary {
        lemma_primary_from(list, i + 1);
    }
}

/// Taking one caret out of a strictly increasing list leaves one that never
/// meets it.
pub proof fn lemma_removed_apart(list: Seq<Flagged>, k: int, len: int)
    requires
        0 <= k < list.len(),
        strictly_placed(unflagged(list)),
        all_carets(list, |c: CaretAt| 0 <= c.cursor <= len),
    ensures
        carets_wf(unflagged(list.remove(k)), list[k].caret.cursor, len),
{
    let all = unflagged(list);
    let rest = unflagged(list.remove(k));
    let inside = |c: CaretAt| 0 <= c.cursor <= len;
    assert forall|i: int| 0 <= i < rest.len() implies #[trigger] rest[i] == all[if i < k {
        i
    } else {
        i + 1
    }] by {}
    assert forall|i: int, j: int| 0 <= i < j < rest.len() implies rest[i].cursor
        < rest[j].cursor by {}
    assert forall|i: int| 0 <= i < rest.len() implies 0 <= (#[trigger] rest[i]).cursor <= len
        && rest[i].cursor != list[k].caret.cursor by {
        let o = if i < k {
            i
        } else {
            i + 1
        };
        assert(rest[i] == all[o]);
        assert(inside(list[o].caret));
        assert(all[k] == list[k].caret);
        if o < k {
            assert(all[o].cursor < all[k].cursor);
        } else {
            assert(all[k].cursor < all[o].cursor);
        }
    }
}

/// `carets` with `c` put in its place is `carets` with `c` inserted.
pub proof fn lemma_placed(carets: Seq<CaretAt>, c: CaretAt, j: int)
    requires
        0 <= j <= carets.len(),
        forall|k: int| j <= k < carets.len() ==> (#[trigger] carets[k]).cursor > c.cursor,
        j > 0 ==> carets[j - 1].cursor <= c.cursor,
    ensures
        placed(carets, c) == carets.insert(j, c),
    decreases carets.len(),
{
    if carets.len() == 0 || carets.last().cursor <= c.cursor {
        assert(carets.insert(j, c) =~= carets.push(c));
    } else {
        lemma_placed(carets.drop_last(), c, j);
        assert(carets.drop_last().insert(j, c).push(carets.last()) =~= carets.insert(j, c));
    }
}

/// Dropping the carets at one position from a strictly increasing list keeps it
/// so and keeps what holds of every caret.
pub proof fn lemma_without(carets: Seq<CaretAt>, pos: int, len: int)
    requires
        strictly_placed(carets),
        forall|i: int| 0 <= i < carets.len() ==> 0 <= (#[trigger] carets[i]).cursor <= len,
    ensures
        carets_wf(without(carets, pos), pos, len),
        carets.len() > 0 && without(carets, pos).len() > 0 ==> without(carets, pos).last().cursor
            <= carets.last().cursor,
        without(carets, pos).len() <= carets.len(),
    decreases carets.len(),
{
    reveal(Seq::filter);
    if carets.len() > 0 {
        let front = carets.drop_last();
        assert(strictly_placed(front)) by {
            assert forall|i: int, j: int| 0 <= i < j < front.len() implies front[i].cursor
                < front[j].cursor by {
                assert(carets[i].cursor < carets[j].cursor);
            }
        }
        lemma_without(front, pos, len);
        let r = without(carets, pos);
        let f = without(front, pos);
        if carets.last().cursor != pos {
            assert(r == f.push(carets.last()));
            if f.len() > 0 {
                assert(carets[front.len() - 1].cursor < carets[front.len() as int].cursor);
                assert(f.last().cursor < carets.last().cursor);
                assert forall|i: int, j: int| 0 <= i < j < r.len() implies r[i].cursor
                    < r[j].cursor by {
                    if j == f.len() && i < f.len() - 1 {
                        assert(f[i].cursor < f[f.len() - 1].cursor);
                    }
                }
            }
        } else {
            assert(r == f);
            if front.len() > 0 {
                assert(carets[front.len() - 1].cursor < carets[front.len() as int].cursor);
            }
        }
    }
}

fn sort_key(x: &(Caret, bool), by_start: bool) -> (r: usize)
    ensures
        r == if by_start {
            x.0@.start()
        } else {
            x.0@.cursor
        },
{
    if by_start {
        x.0.lower()
    } else {
        x.0.cursor
    }
}

/// The carets in order of where they stand, or of where their selections start.
pub(crate) fn sort_carets(list: &Vec<(Caret, bool)>, by_start: bool) -> (out: Vec<(Caret, bool)>)
    ensures
        flags_view(out@) == sorted_by(
            flags_view(list@),
            if by_start {
                start_key()
            } else {
                cursor_key()
            },
        ),
{
    let ghost key = if by_start {
        start_key()
    } else {
        cursor_key()
    };
    let ghost all = flags_view(list@);
    let mut out: Vec<(Caret, bool)> = Vec::new();
    let mut i: usize = 0;
    assert(flags_view(out@) =~= all.take(0));
    while i < list.len()
        invariant
            i <= list.len(),
            all == flags_view(list@),
            key == if by_start {
                start_key()
            } else {
                cursor_key()
            },
            flags_view(out@) == sorted_by(all.take(i as int), key),
            out.len() == i,
        decreases list.len() - i,
    {
        let x = list[i];
        let kx: usize = sort_key(&x, by_start);
        let ghost xv = Flagged { caret: x.0@, primary: x.1 };
        let ghost before = flags_view(out@);
        let mut j: usize = out.len();
        while j > 0 && sort_key(&out[j - 1], by_start) > kx
            invariant
                j <= out.len(),
                before == flags_view(out@),
                kx == key(xv),
                key == if by_start {
                    start_key()
                } else {
                    cursor_key()
                },
                forall|k: int| j <= k < before.len() ==> key(#[trigger] before[k]) > key(xv),
            decreases j,
        {
            j = j - 1;
            assert(before[j as int] == Flagged { caret: out[j as int].0@, primary: out[j as int].1 });
        }
        if j > 0 {
            assert(before[j - 1] == Flagged { caret: out[j - 1].0@, primary: out[j - 1].1 });
        }
        proof {
            lemma_insert_by(before, xv, key, j as int);
            assert(all.take(i + 1).drop_last() =~= all.take(i as int));
            assert(all.take(i + 1).last() == xv);
        }
        out.insert(j, x);
        assert(flags_view(out@) =~= before.insert(j as int, xv));
        i = i + 1;
    }
    assert(all.take(i as int) =~= all);
    out
}

/// Carets at one position merged into one.
pub(crate) fn merge_carets(list: &Vec<(Caret, bool)>) -> (out: Vec<(Caret, bool)>)
    ensures
        flags_view(out@) == merged(flags_view(list@)),
{
    let ghost all = flags_view(list@);
    let mut out: Vec<(Caret, bool)> = Vec::new();
    let mut i: usize = 0;
    assert(flags_view(out@) =~= all.take(0));
    while i < list.len()
        invariant
            i <= list.len(),
            all == flags_view(list@),
            flags_view(out@) == merged(all.take(i as int)),
        decreases list.len() - i,
    {
        let (c, p) = list[i];
        let ghost before = flags_view(out@);
        proof {
            assert(all.take(i + 1).drop_last() =~= all.take(i as int));
            assert(all.take(i + 1).last() == Flagged { caret: c@, primary: p });
        }
        let n: usize = out.len();
        if n > 0 && out[n - 1].0.cursor == c.cursor {
            let (last, flag) = out[n - 1];
            out.set(n - 1, (last, flag || p));
            assert(flags_view(out@) =~= before.drop_last().push(
                Flagged {
                    caret: before.last().caret,
                    primary: before.last().primary || p,
                },
            ));
        } else {
            out.push((c, p));
            assert(flags_view(out@) =~= before.push(Flagged { caret: c@, primary: p }));
        }
        i = i + 1;
    }
    assert(all.take(i as int) =~= all);
    out
}

/// The index of the first primary caret, or 0 when there is none.
pub(crate) fn primary_index(list: &Vec<(Caret, bool)>) -> (r: usize)
    requires
        list.len() > 0,
    ensures
        r == primary_from(flags_view(list@), 0),
{
    let ghost all = flags_view(list@);
    let mut i: usize = 0;
    while i < list.len()
        invariant
            i <= list.len(),
            all == flags_view(list@),
            primary_from(all, 0) == primary_from(all, i as int),
        decreases list.len() - i,
    {
        assert(all[i as int].primary == list[i as int].1);
        if list[i].1 {
            return i;
        }
        i = i + 1;
    }
    0
}

} // verus!
