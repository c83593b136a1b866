//! Moving through lists that go round.

use vstd::arithmetic::div_mod::{
    lemma_add_mod_noop_right, lemma_mod_add_multiples_vanish, lemma_small_mod,
    lemma_sub_mod_noop_right,
};
use vstd::prelude::*;

verus! {

/// The place `delta` rows on in a list of `n` that goes round.
pub open spec fn stepped(i: int, delta: int, n: int) -> int {
    (i + delta) % n
}

/// The place `delta` rows on in a list of `n` that goes round.
pub fn step(i: usize, delta: i32, n: usize) -> (r: usize)
    requires
        i < n,
    ensures
        r == stepped(i as int, delta as int, n as int),
        r < n,
{
    if delta >= 0 {
        let d: usize = (delta as u64 % n as u64) as usize;
        proof {
            lemma_add_mod_noop_right(i as int, delta as int, n as int);
        }
        if d >= n - i {
            proof {
                lemma_mod_add_multiples_vanish(i + d - n, n as int);
                lemma_small_mod((i + d - n) as nat, n as nat);
            }
            d - (n - i)
        } else {
            proof {
                lemma_small_mod((i + d) as nat, n as nat);
            }
            i + d
        }
    } else {
        let back: i64 = -(delta as i64);
        let d: usize = (back as u64 % n as u64) as usize;
        proof {
            lemma_sub_mod_noop_right(i as int, back as int, n as int);
        }
        if d <= i {
            proof {
                lemma_small_mod((i - d) as nat, n as nat);
            }
            i - d
        } else {
            proof {
                lemma_mod_add_multiples_vanish(i - d, n as int);
                lemma_small_mod((i - d + n) as nat, n as nat);
            }
            i + (n - d)
        }
    }
}

/// One step on and one step back lead to where they started from, and so does
/// going once round.
pub proof fn law_steps_revert(i: int, n: int)
    requires
        0 <= i < n,
    ensures
        stepped(stepped(i, 1, n), -1, n) == i,
        stepped(stepped(i, -1, n), 1, n) == i,
        stepped(i, n, n) == i,
{
    lemma_small_mod(i as nat, n as nat);
    lemma_mod_add_multiples_vanish(i, n);
    lemma_mod_add_multiples_vanish(-1, n);
    lemma_small_mod((n - 1) as nat, n as nat);
    if i + 1 < n {
        lemma_small_mod((i + 1) as nat, n as nat);
    } else {
        lemma_mod_add_multiples_vanish(0, n);
        lemma_small_mod(0, n as nat);
    }
    if i > 0 {
        lemma_small_mod((i - 1) as nat, n as nat);
    } else {
        lemma_mod_add_multiples_vanish(0, n);
        lemma_small_mod(0, n as nat);
    }
}

/// The items of `s` at the places that `p` picks.
pub open spec fn picked<T>(s: Seq<T>, p: spec_fn(int) -> bool) -> Seq<T>
    decreases s.len(),
{
    if s.len() == 0 {
        s
    } else {
        let rest = picked(s.drop_last(), p);
        if p(s.len() - 1) {
            rest.push(s.last())
        } else {
            rest
        }
    }
}

/// One more item is picked or not.
pub proof fn lemma_picked_next<T>(s: Seq<T>, p: spec_fn(int) -> bool, i: int)
    requires
        0 <= i < s.len(),
    ensures
        picked(s.take(i + 1), p) == if p(i) {
            picked(s.take(i), p).push(s[i])
        } else {
            picked(s.take(i), p)
        },
{
    assert(s.take(i + 1).drop_last() =~= s.take(i));
}

/// How many are picked depends on the places alone.
pub proof fn lemma_picked_len<T, U>(s: Seq<T>, t: Seq<U>, p: spec_fn(int) -> bool)
    requires
        s.len() == t.len(),
    ensures
        picked(s, p).len() == picked(t, p).len(),
        picked(s, p).len() <= s.len(),
    decreases s.len(),
{
    if s.len() > 0 {
        lemma_picked_len(s.drop_last(), t.drop_last(), p);
    }
}

/// Where every place is picked or passed over by one of two, their numbers add
/// up.
pub proof fn lemma_picked_split<T>(
    s: Seq<T>,
    p: spec_fn(int) -> bool,
    q: spec_fn(int) -> bool,
)
    requires
        forall|i: int| 0 <= i < s.len() ==> p(i) == !#[trigger] q(i),
    ensures
        picked(s, p).len() + picked(s, q).len() == s.len(),
    decreases s.len(),
{
    if s.len() > 0 {
        lemma_picked_split(s.drop_last(), p, q);
        assert(p(s.len() - 1) == !q(s.len() - 1));
    }
}

/// Something is picked where a place is.
pub proof fn lemma_picked_some<T>(s: Seq<T>, p: spec_fn(int) -> bool, i: int)
    requires
        0 <= i < s.len(),
        p(i),
    ensures
        picked(s, p).len() > 0,
    decreases s.len(),
{
    if i < s.len() - 1 {
        lemma_picked_some(s.drop_last(), p, i);
    }
}

/// Nothing is picked where no place is.
pub proof fn lemma_picked_none<T>(s: Seq<T>, p: spec_fn(int) -> bool)
    requires
        forall|i: int| 0 <= i < s.len() ==> !#[trigger] p(i),
    ensures
        picked(s, p).len() == 0,
    decreases s.len(),
{
    if s.len() > 0 {
        lemma_picked_none(s.drop_last(), p);
        assert(!p(s.len() - 1));
    }
}

/// A step on goes to the next place, and from the last one to the first; a step
/// back is the other way round.
pub proof fn law_a_step_goes_to_the_neighbour(i: int, n: int)
    requires
        0 <= i < n,
    ensures
        i + 1 < n ==> stepped(i, 1, n) == i + 1,
        i + 1 == n ==> stepped(i, 1, n) == 0,
        i > 0 ==> stepped(i, -1, n) == i - 1,
        i == 0 ==> stepped(i, -1, n) == n - 1,
        stepped(i, 0, n) == i,
{
    vstd::arithmetic::div_mod::lemma_small_mod(i as nat, n as nat);
    if i + 1 < n {
        vstd::arithmetic::div_mod::lemma_small_mod((i + 1) as nat, n as nat);
    } else {
        vstd::arithmetic::div_mod::lemma_mod_self_0(n);
    }
    if i > 0 {
        vstd::arithmetic::div_mod::lemma_small_mod((i - 1) as nat, n as nat);
    } else {
        vstd::arithmetic::div_mod::lemma_mod_add_multiples_vanish(-1, n);
        vstd::arithmetic::div_mod::lemma_small_mod((n - 1) as nat, n as nat);
    }
}

/// Picking items out of a list keeps their order: an item at a picked place is
/// there, behind those picked before it, and nothing else is.
pub proof fn law_picking_keeps_the_order<T>(s: Seq<T>, p: spec_fn(int) -> bool)
    ensures
        forall|i: int|
            0 <= i < s.len() && #[trigger] p(i) ==> {
                let k = picked(s.take(i), p).len() as int;
                k < picked(s, p).len() && picked(s, p)[k] == s[i]
            },
        (forall|i: int| 0 <= i < s.len() ==> !#[trigger] p(i)) == (picked(s, p).len() == 0),
        picked(s, p).len() <= s.len(),
        forall|x: T| #[trigger]
            picked(s, p).contains(x) ==> exists|i: int| 0 <= i < s.len() && p(i) && s[i] == x,
    decreases s.len(),
{
    if s.len() > 0 {
        let f = s.drop_last();
        let n = s.len() - 1;
        law_picking_keeps_the_order(f, p);
        assert(s.take(n) =~= f);
        assert forall|i: int| 0 <= i < s.len() && #[trigger] p(i) implies ({
            let k = picked(s.take(i), p).len() as int;
            k < picked(s, p).len() && picked(s, p)[k] == s[i]
        }) by {
            if i < n {
                assert(s.take(i) =~= f.take(i));
                assert(f[i] == s[i]);
            }
        }
        assert forall|x: T| #[trigger] picked(s, p).contains(x) implies exists|i: int|
            0 <= i < s.len() && p(i) && s[i] == x by {
            let k = choose|k: int| 0 <= k < picked(s, p).len() && picked(s, p)[k] == x;
            if k < picked(f, p).len() {
                assert(picked(f, p)[k] == x);
                assert(picked(f, p).contains(x));
                let i = choose|i: int| 0 <= i < f.len() && p(i) && f[i] == x;
                assert(s[i] == x);
            } else {
                assert(p(n) && s[n] == x);
            }
        }
        if forall|i: int| 0 <= i < s.len() ==> !#[trigger] p(i) {
            assert(!p(n));
        }
        if picked(s, p).len() == 0 {
            assert forall|i: int| 0 <= i < s.len() implies !#[trigger] p(i) by {}
        }
    }
}

} // verus!
