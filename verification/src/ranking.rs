//! Putting scored candidates in order.

use vstd::prelude::*;

verus! {

/// A candidate: its score (more is better), its length (less is better) and
/// its index, which decides where both are equal.
#[derive(Debug, Clone, Copy, PartialEq, Eq, Structural)]
pub struct Rank {
    pub score: i64,
    pub len: usize,
    pub index: usize,
}

/// Whether `a` comes before `b`.
pub open spec fn comes_before(a: Rank, b: Rank) -> bool {
    a.score > b.score || (a.score == b.score && (a.len < b.len || (a.len == b.len && a.index
        < b.index)))
}

/// Each candidate comes before all that follow it.
pub open spec fn ranked(s: Seq<Rank>) -> bool {
    forall|i: int, j: int| 0 <= i < j < s.len() ==> comes_before(s[i], s[j])
}

/// No index occurs twice.
pub open spec fn distinct_indices(s: Seq<Rank>) -> bool {
    forall|i: int, j: int| 0 <= i < j < s.len() ==> s[i].index != s[j].index
}

fn is_before(a: Rank, b: Rank) -> (r: bool)
    ensures
        r == comes_before(a, b),
{
    a.score > b.score || (a.score == b.score && (a.len < b.len || (a.len == b.len && a.index
        < b.index)))
}

fn merge_ranked(a: &Vec<Rank>, b: &Vec<Rank>) -> (out: Vec<Rank>)
    requires
        ranked(a@),
        ranked(b@),
        forall|i: int, j: int|
            0 <= i < a.len() && 0 <= j < b.len() ==> (#[trigger] a[i]).index != (#[trigger]
            b[j]).index,
    ensures
        ranked(out@),
        forall|x: Rank| #[trigger] out@.contains(x) <==> a@.contains(x) || b@.contains(x),
        out.len() == a.len() + b.len(),
{
    let mut out: Vec<Rank> = Vec::new();
    let mut i: usize = 0;
    let mut j: usize = 0;
    while i < a.len() || j < b.len()
        invariant
            i <= a.len(),
            j <= b.len(),
            ranked(a@),
            ranked(b@),
            forall|k: int, l: int|
                0 <= k < a.len() && 0 <= l < b.len() ==> (#[trigger] a[k]).index != (#[trigger]
                b[l]).index,
            out.len() == i + j,
            ranked(out@),
            out.len() > 0 && i < a.len() ==> comes_before(out@.last(), a[i as int]),
            out.len() > 0 && j < b.len() ==> comes_before(out@.last(), b[j as int]),
            forall|k: int| 0 <= k < i ==> out@.contains(#[trigger] a@[k]),
            forall|k: int| 0 <= k < j ==> out@.contains(#[trigger] b@[k]),
            forall|k: int|
                0 <= k < out.len() ==> a@.contains(#[trigger] out@[k]) || b@.contains(out@[k]),
        decreases (a.len() - i) + (b.len() - j),
    {
        let ghost before = out@;
        let from_a: bool = if i < a.len() && j < b.len() {
            is_before(a[i], b[j])
        } else {
            i < a.len()
        };
        let x: Rank = if from_a {
            a[i]
        } else {
            b[j]
        };
        out.push(x);
        if from_a {
            i = i + 1;
        } else {
            j = j + 1;
        }
        proof {
            assert forall|k: int| #![trigger before[k]] 0 <= k < before.len() implies out@.contains(
                before[k],
            ) by {
                assert(out@[k] == before[k]);
            }
            assert(out@.contains(x)) by {
                assert(out@[before.len() as int] == x);
            }
            assert forall|p: int, q: int| 0 <= p < q < out@.len() implies comes_before(
                out@[p],
                out@[q],
            ) by {
                if q == before.len() && p < before.len() - 1 {
                    assert(comes_before(before[p], before[before.len() - 1]));
                }
            }
            assert forall|k: int| 0 <= k < i implies out@.contains(#[trigger] a@[k]) by {
                if k < i - 1 || !from_a {
                    assert(before.contains(a@[k]));
                    let w = choose|w: int| 0 <= w < before.len() && before[w] == a@[k];
                    assert(out@[w] == a@[k]);
                }
            }
            assert forall|k: int| 0 <= k < j implies out@.contains(#[trigger] b@[k]) by {
                if k < j - 1 || from_a {
                    assert(before.contains(b@[k]));
                    let w = choose|w: int| 0 <= w < before.len() && before[w] == b@[k];
                    assert(out@[w] == b@[k]);
                }
            }
            if from_a && i < a.len() {
                assert(comes_before(a@[i - 1], a@[i as int]));
            }
            if !from_a && j < b.len() {
                assert(comes_before(b@[j - 1], b@[j as int]));
            }
            if from_a && j < b.len() {
                assert(a[i - 1].index != b[j as int].index);
            }
            if !from_a && i < a.len() {
                assert(a[i as int].index != b[j - 1].index);
            }
        }
    }
    out
}

/// The candidates in order.
pub fn sort_ranks(v: &Vec<Rank>, from: usize, to: usize) -> (out: Vec<Rank>)
    requires
        from <= to <= v.len(),
        distinct_indices(v@),
    ensures
        ranked(out@),
        out.len() == to - from,
        forall|x: Rank| #[trigger]
            out@.contains(x) <==> v@.subrange(from as int, to as int).contains(x),
    decreases to - from,
{
    let ghost part = v@.subrange(from as int, to as int);
    if to - from == 0 {
        return Vec::new();
    }
    if to - from == 1 {
        let mut out: Vec<Rank> = Vec::new();
        out.push(v[from]);
        assert(out@ =~= part);
        return out;
    }
    let mid: usize = from + (to - from) / 2;
    let a = sort_ranks(v, from, mid);
    let b = sort_ranks(v, mid, to);
    let ghost pa = v@.subrange(from as int, mid as int);
    let ghost pb = v@.subrange(mid as int, to as int);
    proof {
        assert forall|i: int, j: int| 0 <= i < a.len() && 0 <= j < b.len() implies (#[trigger]
        a[i]).index != (#[trigger] b[j]).index by {
            assert(a@.contains(a@[i]) && b@.contains(b@[j]));
            let x = choose|x: int| 0 <= x < pa.len() && pa[x] == a@[i];
            let y = choose|y: int| 0 <= y < pb.len() && pb[y] == b@[j];
            assert(v@[from + x].index != v@[mid + y].index);
        }
    }
    let out = merge_ranked(&a, &b);
    proof {
        assert forall|x: Rank| #[trigger] out@.contains(x) <==> part.contains(x) by {
            if pa.contains(x) {
                let k = choose|k: int| 0 <= k < pa.len() && pa[k] == x;
                assert(part[k] == x);
            }
            if pb.contains(x) {
                let k = choose|k: int| 0 <= k < pb.len() && pb[k] == x;
                assert(part[k + (mid - from)] == x);
            }
            if part.contains(x) {
                let k = choose|k: int| 0 <= k < part.len() && part[k] == x;
                if k < mid - from {
                    assert(pa[k] == x);
                } else {
                    assert(pb[k - (mid - from)] == x);
                }
            }
            assert(out@.contains(x) <==> a@.contains(x) || b@.contains(x));
            assert(a@.contains(x) <==> pa.contains(x));
            assert(b@.contains(x) <==> pb.contains(x));
        }
    }
    out
}

} // verus!
