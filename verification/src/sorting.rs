//! Putting texts in order.

use vstd::prelude::*;

verus! {

/// Whether `a` comes before `b` from position `i` on: by the first character
/// that differs, and a text before those that go on behind it.
pub open spec fn text_before_at(a: Seq<char>, b: Seq<char>, i: int) -> bool
    decreases b.len() - i,
{
    if i >= b.len() {
        false
    } else if i >= a.len() {
        true
    } else if a[i] != b[i] {
        a[i] < b[i]
    } else {
        text_before_at(a, b, i + 1)
    }
}

/// Whether `a` comes before `b` by code points.
pub open spec fn text_before(a: Seq<char>, b: Seq<char>) -> bool {
    text_before_at(a, b, 0)
}

/// What things are ordered by: a group first, and a text within it.
#[verifier::ext_equal]
pub struct KeyState {
    pub group: int,
    pub text: Seq<char>,
}

/// What things are ordered by: a group first, and a text within it.
pub struct SortKey {
    pub group: u8,
    pub text: Vec<char>,
}

impl View for SortKey {
    type V = KeyState;

    open spec fn view(&self) -> KeyState {
        KeyState { group: self.group as int, text: self.text@ }
    }
}

/// The keys of a list.
pub open spec fn keys_view(v: Seq<SortKey>) -> Seq<KeyState> {
    Seq::new(v.len(), |i: int| v[i]@)
}

/// Whether a key comes before another.
pub open spec fn key_before(a: KeyState, b: KeyState) -> bool {
    a.group < b.group || a.group == b.group && text_before(a.text, b.text)
}

/// Whether place `i` comes before place `j`: by the keys, and where these are
/// the same, in the order of the places.
pub open spec fn place_before(k: Seq<KeyState>, i: int, j: int) -> bool {
    key_before(k[i], k[j]) || k[i] == k[j] && i < j
}

/// The places of the keys, each once and in order.
pub open spec fn ordered(order: Seq<usize>, k: Seq<KeyState>) -> bool {
    &&& order.len() == k.len()
    &&& forall|i: int| 0 <= i < order.len() ==> (#[trigger] order[i]) < k.len()
    &&& forall|i: int, j: int|
        0 <= i < j < order.len() ==> place_before(k, #[trigger] order[i] as int, #[trigger]
            order[j] as int)
    &&& forall|i: int| 0 <= i < k.len() ==> order.contains(#[trigger] place(i))
}

/// A place as a number of the machine.
pub open spec fn place(i: int) -> usize {
    i as usize
}

pub proof fn lemma_text_order(a: Seq<char>, b: Seq<char>, i: int)
    requires
        0 <= i <= a.len(),
        i <= b.len(),
    ensures
        !(text_before_at(a, b, i) && text_before_at(b, a, i)),
        !text_before_at(a, b, i) && !text_before_at(b, a, i) ==> a.len() == b.len() && forall|k: int|
            i <= k < a.len() ==> a[k] == b[k],
        a == b ==> !text_before_at(a, b, i),
    decreases a.len() - i,
{
    if i < a.len() && i < b.len() && a[i] == b[i] {
        lemma_text_order(a, b, i + 1);
    }
}

pub proof fn lemma_text_transitive(a: Seq<char>, b: Seq<char>, c: Seq<char>, i: int)
    requires
        0 <= i <= a.len(),
        i <= b.len(),
        i <= c.len(),
        text_before_at(a, b, i),
        text_before_at(b, c, i),
    ensures
        text_before_at(a, c, i),
    decreases c.len() - i,
{
    if i < a.len() && i < b.len() && i < c.len() && a[i] == b[i] && b[i] == c[i] {
        lemma_text_transitive(a, b, c, i + 1);
    }
}

/// The order of keys is a strict total one.
pub proof fn lemma_key_order(a: KeyState, b: KeyState, c: KeyState)
    ensures
        !(key_before(a, b) && key_before(b, a)),
        !key_before(a, a),
        key_before(a, b) || key_before(b, a) || a == b,
        key_before(a, b) && key_before(b, c) ==> key_before(a, c),
{
    lemma_text_order(a.text, b.text, 0);
    lemma_text_order(a.text, a.text, 0);
    if !key_before(a, b) && !key_before(b, a) {
        assert(a.text =~= b.text);
    }
    if key_before(a, b) && key_before(b, c) && a.group == b.group && b.group == c.group {
        lemma_text_transitive(a.text, b.text, c.text, 0);
    }
}

proof fn lemma_place_order(k: Seq<KeyState>, a: int, b: int, c: int)
    ensures
        a != b ==> place_before(k, a, b) || place_before(k, b, a),
        place_before(k, a, b) && place_before(k, b, c) ==> place_before(k, a, c),
{
    lemma_key_order(k[a], k[b], k[c]);
    lemma_key_order(k[b], k[a], k[c]);
}

/// Whether `a` comes before `b` by code points.
pub fn is_text_before(a: &Vec<char>, b: &Vec<char>) -> (r: bool)
    ensures
        r == text_before(a@, b@),
{
    let mut i: usize = 0;
    while i < a.len() && i < b.len()
        invariant
            i <= a@.len(),
            i <= b@.len(),
            text_before(a@, b@) == text_before_at(a@, b@, i as int),
        decreases a.len() - i,
    {
        if a[i] != b[i] {
            return a[i] < b[i];
        }
        i = i + 1;
    }
    i < b.len()
}

fn is_before(keys: &Vec<SortKey>, i: usize, j: usize) -> (r: bool)
    requires
        i < keys@.len(),
        j < keys@.len(),
    ensures
        r == place_before(keys_view(keys@), i as int, j as int),
{
    let a = &keys[i];
    let b = &keys[j];
    proof {
        lemma_key_order(a@, b@, a@);
        assert(keys_view(keys@)[i as int] == a@ && keys_view(keys@)[j as int] == b@);
    }
    if a.group != b.group {
        return a.group < b.group;
    }
    if is_text_before(&a.text, &b.text) {
        return true;
    }
    if is_text_before(&b.text, &a.text) {
        return false;
    }
    i < j
}

/// Places in order.
spec fn in_order(s: Seq<usize>, k: Seq<KeyState>) -> bool {
    &&& forall|i: int| 0 <= i < s.len() ==> (#[trigger] s[i]) < k.len()
    &&& forall|i: int, j: int|
        0 <= i < j < s.len() ==> place_before(k, #[trigger] s[i] as int, #[trigger] s[j] as int)
}

fn merge_places(keys: &Vec<SortKey>, a: &Vec<usize>, b: &Vec<usize>) -> (out: Vec<usize>)
    requires
        in_order(a@, keys_view(keys@)),
        in_order(b@, keys_view(keys@)),
        forall|i: int, j: int| 0 <= i < a@.len() && 0 <= j < b@.len() ==> a@[i] != b@[j],
    ensures
        in_order(out@, keys_view(keys@)),
        forall|x: usize| #[trigger] out@.contains(x) <==> a@.contains(x) || b@.contains(x),
        out@.len() == a@.len() + b@.len(),
{
    let ghost k = keys_view(keys@);
    let mut out: Vec<usize> = Vec::new();
    let mut i: usize = 0;
    let mut j: usize = 0;
    while i < a.len() || j < b.len()
        invariant
            i <= a@.len(),
            j <= b@.len(),
            k == keys_view(keys@),
            in_order(a@, k),
            in_order(b@, k),
            forall|p: int, q: int| 0 <= p < a@.len() && 0 <= q < b@.len() ==> a@[p] != b@[q],
            out@.len() == i + j,
            in_order(out@, k),
            out@.len() > 0 && i < a@.len() ==> place_before(
                k,
                out@.last() as int,
                a@[i as int] as int,
            ),
            out@.len() > 0 && j < b@.len() ==> place_before(
                k,
                out@.last() as int,
                b@[j as int] as int,
            ),
            forall|p: int| 0 <= p < i ==> out@.contains(#[trigger] a@[p]),
            forall|p: int| 0 <= p < j ==> out@.contains(#[trigger] b@[p]),
            forall|p: int|
                0 <= p < out@.len() ==> a@.contains(#[trigger] out@[p]) || b@.contains(out@[p]),
        decreases (a.len() - i) + (b.len() - j),
    {
        let ghost before = out@;
        let from_a: bool = if i < a.len() && j < b.len() {
            is_before(keys, a[i], b[j])
        } else {
            i < a.len()
        };
        let x: usize = if from_a {
            a[i]
        } else {
            b[j]
        };
        out.push(x);
        if from_a {
            i = i + 1;
        } else {
            j = j + 1;
        }
        proof {
            assert(out@[before.len() as int] == x);
            assert forall|p: int, q: int| 0 <= p < q < out@.len() implies place_before(
                k,
                #[trigger] out@[p] as int,
                #[trigger] out@[q] as int,
            ) by {
                if q == before.len() && p < before.len() - 1 {
                    assert(place_before(k, before[p] as int, before[before.len() - 1] as int));
                    lemma_place_order(k, before[p] as int, before.last() as int, x as int);
                }
            }
            assert forall|p: int| 0 <= p < i implies out@.contains(#[trigger] a@[p]) by {
                if p < i - 1 || !from_a {
                    assert(before.contains(a@[p]));
                    let w = before.index_of(a@[p]);
                    assert(out@[w] == a@[p]);
                }
            }
            assert forall|p: int| 0 <= p < j implies out@.contains(#[trigger] b@[p]) by {
                if p < j - 1 || from_a {
                    assert(before.contains(b@[p]));
                    let w = before.index_of(b@[p]);
                    assert(out@[w] == b@[p]);
                }
            }
            if from_a && i < a@.len() {
                assert(place_before(k, a@[i - 1] as int, a@[i as int] as int));
            }
            if !from_a && j < b@.len() {
                assert(place_before(k, b@[j - 1] as int, b@[j as int] as int));
            }
            if from_a && j < b@.len() {
                assert(a@[i - 1] != b@[j as int]);
                lemma_place_order(k, a@[i - 1] as int, b@[j as int] as int, 0);
            }
            if !from_a && i < a@.len() {
                assert(a@[i as int] != b@[j - 1]);
                lemma_place_order(k, a@[i as int] as int, b@[j - 1] as int, 0);
            }
        }
    }
    out
}

fn sort_places(keys: &Vec<SortKey>, from: usize, to: usize) -> (out: Vec<usize>)
    requires
        from <= to <= keys@.len(),
    ensures
        in_order(out@, keys_view(keys@)),
        out@.len() == to - from,
        forall|x: usize| #[trigger] out@.contains(x) <==> from <= x < to,
    decreases to - from,
{
    if to - from == 0 {
        return Vec::new();
    }
    if to - from == 1 {
        let mut out: Vec<usize> = Vec::new();
        out.push(from);
        assert(out@[0] == from);
        return out;
    }
    let mid: usize = from + (to - from) / 2;
    let a = sort_places(keys, from, mid);
    let b = sort_places(keys, mid, to);
    proof {
        assert forall|i: int, j: int| 0 <= i < a@.len() && 0 <= j < b@.len() implies a@[i]
            != b@[j] by {
            assert(a@.contains(a@[i]));
            assert(b@.contains(b@[j]));
        }
    }
    merge_places(keys, &a, &b)
}

proof fn lemma_orders_agree(a: Seq<usize>, b: Seq<usize>, k: Seq<KeyState>, n: int)
    requires
        ordered(a, k),
        ordered(b, k),
        0 <= n <= k.len(),
        k.len() <= usize::MAX,
    ensures
        forall|i: int| 0 <= i < n ==> a[i] == b[i],
    decreases n,
{
    if n > 0 {
        lemma_orders_agree(a, b, k, n - 1);
        let x = a[n - 1];
        let y = b[n - 1];
        if x != y {
            assert(x < k.len() && y < k.len());
            assert(b.contains(place(x as int)));
            assert(a.contains(place(y as int)));
            assert(place(x as int) == x && place(y as int) == y);
            let q = b.index_of(x);
            let p = a.index_of(y);
            assert(b[q] == x && a[p] == y);
            if q < n - 1 {
                assert(a[q] == b[q]);
                assert(place_before(k, a[q] as int, a[n - 1] as int));
            }
            if p < n - 1 {
                assert(a[p] == b[p]);
                assert(place_before(k, b[p] as int, b[n - 1] as int));
            }
            lemma_key_order(k[x as int], k[y as int], k[x as int]);
            lemma_key_order(k[x as int], k[x as int], k[x as int]);
            lemma_key_order(k[y as int], k[y as int], k[y as int]);
            assert(p > n - 1 && q > n - 1);
            assert(place_before(k, a[n - 1] as int, a[p] as int));
            assert(place_before(k, b[n - 1] as int, b[q] as int));
        }
    }
}

/// The places of the keys in order: the one sequence that holds each once, by
/// the keys, and in the order of the places where keys are the same.
pub open spec fn order_of(k: Seq<KeyState>) -> Seq<usize> {
    choose|o: Seq<usize>| ordered(o, k)
}

/// How many of the first places of an order come before the place `n`.
spec fn before_count(o: Seq<usize>, k: Seq<KeyState>, n: int, i: int) -> int
    decreases i,
{
    if i <= 0 {
        0
    } else if place_before(k, o[i - 1] as int, n) {
        i
    } else {
        before_count(o, k, n, i - 1)
    }
}

proof fn lemma_before_count(o: Seq<usize>, k: Seq<KeyState>, n: int, i: int)
    requires
        0 <= i <= o.len(),
    ensures
        0 <= before_count(o, k, n, i) <= i,
        before_count(o, k, n, i) > 0 ==> place_before(
            k,
            o[before_count(o, k, n, i) - 1] as int,
            n,
        ),
        forall|j: int|
            before_count(o, k, n, i) <= j < i ==> !place_before(k, #[trigger] o[j] as int, n),
    decreases i,
{
    if i > 0 && !place_before(k, o[i - 1] as int, n) {
        lemma_before_count(o, k, n, i - 1);
    }
}

/// Keys can be brought into order, whatever they are.
proof fn lemma_an_order_exists(k: Seq<KeyState>) -> (o: Seq<usize>)
    requires
        k.len() <= usize::MAX,
    ensures
        ordered(o, k),
    decreases k.len(),
{
    if k.len() == 0 {
        Seq::empty()
    } else {
        let n = k.len() - 1;
        let d = k.drop_last();
        let was = lemma_an_order_exists(d);
        let p = before_count(was, k, n, was.len() as int);
        lemma_before_count(was, k, n, was.len() as int);
        let o = was.insert(p, place(n));
        assert forall|i: int| 0 <= i < o.len() implies (#[trigger] o[i]) < k.len() by {
            if i < p {
                assert(o[i] == was[i]);
            } else if i > p {
                assert(o[i] == was[i - 1]);
            }
        }
        assert forall|i: int, j: int| 0 <= i < j < o.len() implies place_before(
            k,
            #[trigger] o[i] as int,
            #[trigger] o[j] as int,
        ) by {
            if i < p {
                assert(o[i] == was[i] && was[i] < d.len());
            } else if i > p {
                assert(o[i] == was[i - 1] && was[i - 1] < d.len());
            }
            if j < p {
                assert(o[j] == was[j] && was[j] < d.len());
            } else if j > p {
                assert(o[j] == was[j - 1] && was[j - 1] < d.len());
            }
            if j == p {
                if i < p - 1 {
                    assert(place_before(d, was[i] as int, was[p - 1] as int));
                }
                lemma_place_order(k, was[i] as int, was[p - 1] as int, n);
            } else if i == p {
                assert(!place_before(k, was[j - 1] as int, n));
                lemma_place_order(k, was[j - 1] as int, n, n);
            } else {
                let a = if i < p {
                    i
                } else {
                    i - 1
                };
                let b = if j < p {
                    j
                } else {
                    j - 1
                };
                assert(place_before(d, was[a] as int, was[b] as int));
            }
        }
        assert forall|i: int| 0 <= i < k.len() implies o.contains(#[trigger] place(i)) by {
            if i == n {
                assert(o[p] == place(i));
            } else {
                assert(was.contains(place(i)));
                let q = was.index_of(place(i));
                if q < p {
                    assert(o[q] == place(i));
                } else {
                    assert(o[q + 1] == place(i));
                }
            }
        }
        o
    }
}

/// What `order_of` names is an order of the keys.
pub proof fn lemma_order_of(k: Seq<KeyState>)
    requires
        k.len() <= usize::MAX,
    ensures
        ordered(order_of(k), k),
{
    let o = lemma_an_order_exists(k);
    assert(ordered(o, k));
}

/// The places of the keys in order.
pub fn sort_order(keys: &Vec<SortKey>) -> (order: Vec<usize>)
    ensures
        ordered(order@, keys_view(keys@)),
        order@ == order_of(keys_view(keys@)),
{
    let n: usize = keys.len();
    let order = sort_places(keys, 0, n);
    proof {
        let k = keys_view(keys@);
        assert(ordered(order@, k));
        lemma_orders_agree(order@, order_of(k), k, n as int);
        assert(order@ =~= order_of(k));
    }
    order
}

} // verus!
