//! What holds of trimmed texts, numbers and places in texts.

use crate::buffer::moves::{lemma_back_while, lemma_fwd_while};
use crate::buffer::state::{back_while, fwd_while};
use crate::chars::char_is_whitespace;
use crate::fuzzy::blanks;
use crate::text::{decimal, digit_char, first_place, tail_of, tail_start, trim_text};
use vstd::prelude::*;

verus! {

/// A trimmed text is the text without the white space around it: nothing but white
/// space goes, and none is left at the ends.
pub proof fn law_trimming_takes_the_space_around(s: Seq<char>)
    ensures
        ({
            let t = trim_text(s);
            &&& t.len() > 0 ==> !char_is_whitespace(t[0]) && !char_is_whitespace(t.last())
            &&& t.len() == 0 ==> forall|k: int|
                0 <= k < s.len() ==> char_is_whitespace(#[trigger] s[k])
            &&& t.len() > 0 ==> exists|a: int|
                0 <= a <= s.len() - t.len() && t == #[trigger] s.subrange(a, a + t.len()) && (
                forall|k: int|
                    0 <= k < a || a + t.len() <= k < s.len() ==> char_is_whitespace(
                        #[trigger] s[k],
                    ))
        }),
{
    let a = fwd_while(s, 0, blanks());
    let b = back_while(s, s.len() as int, blanks());
    lemma_fwd_while(s, 0, blanks());
    lemma_back_while(s, s.len() as int, blanks());
    assert forall|k: int| 0 <= k < a implies char_is_whitespace(#[trigger] s[k]) by {
        assert(blanks()(s[k]));
    }
    assert forall|k: int| b <= k < s.len() implies char_is_whitespace(#[trigger] s[k]) by {
        assert(blanks()(s[k]));
    }
    if a < b {
        assert(!blanks()(s[a]));
        assert(!blanks()(s[b - 1]));
        assert(trim_text(s) == s.subrange(a, a + trim_text(s).len()));
    } else {
        assert forall|k: int| 0 <= k < s.len() implies char_is_whitespace(#[trigger] s[k]) by {}
    }
}

/// The number that decimal digits stand for.
pub open spec fn value(s: Seq<char>) -> int
    decreases s.len(),
{
    if s.len() == 0 {
        0
    } else {
        value(s.drop_last()) * 10 + (s.last() as int - 48)
    }
}

/// A number is written in decimal digits that stand for it, with no zero in front.
pub proof fn law_numbers_are_written_in_digits(n: nat)
    ensures
        value(decimal(n)) == n,
        decimal(n).len() > 0,
        n > 0 ==> decimal(n)[0] != '0',
        forall|k: int| 0 <= k < decimal(n).len() ==> '0' <= #[trigger] decimal(n)[k] <= '9',
    decreases n,
{
    let d = decimal(n);
    if n < 10 {
        assert(d =~= seq![digit_char(n)]);
        assert(d.drop_last() =~= Seq::empty());
        assert(value(d.drop_last()) == 0);
        assert(d.last() as int == 48 + n);
    } else {
        law_numbers_are_written_in_digits(n / 10);
        assert(d.drop_last() =~= decimal(n / 10));
        assert(d.last() as int == 48 + n % 10);
        assert(decimal(n)[0] == decimal(n / 10)[0]);
        assert forall|k: int| 0 <= k < d.len() implies '0' <= #[trigger] d[k] <= '9' by {
            if k < d.len() - 1 {
                assert(d[k] == decimal(n / 10)[k]);
            }
        }
    }
}

proof fn lemma_first_place(hay: Seq<char>, nee: Seq<char>, i: int)
    requires
        0 <= i,
        forall|k: int|
            0 <= k < i && k + nee.len() <= hay.len() ==> #[trigger] hay.subrange(
                k,
                k + nee.len(),
            ) != nee,
    ensures
        ({
            let p = first_place(hay, nee, i);
            &&& p >= 0 ==> p + nee.len() <= hay.len() && hay.subrange(p, p + nee.len()) == nee && (
            forall|k: int|
                0 <= k < p && k + nee.len() <= hay.len() ==> #[trigger] hay.subrange(
                    k,
                    k + nee.len(),
                ) != nee)
            &&& p < 0 ==> forall|k: int|
                0 <= k && k + nee.len() <= hay.len() ==> #[trigger] hay.subrange(k, k + nee.len())
                    != nee
        }),
    decreases hay.len() - i + 1,
{
    if i + nee.len() <= hay.len() && hay.subrange(i, i + nee.len()) != nee {
        lemma_first_place(hay, nee, i + 1);
    }
}

/// The first place of a piece in a text is where it stands and does not stand
/// before; there is none only where it stands nowhere.
pub proof fn law_the_first_place_is_found(hay: Seq<char>, nee: Seq<char>)
    ensures
        ({
            let p = first_place(hay, nee, 0);
            &&& p >= 0 ==> p + nee.len() <= hay.len() && hay.subrange(p, p + nee.len()) == nee && (
            forall|k: int|
                0 <= k < p && k + nee.len() <= hay.len() ==> #[trigger] hay.subrange(
                    k,
                    k + nee.len(),
                ) != nee)
            &&& p < 0 ==> forall|k: int|
                0 <= k && k + nee.len() <= hay.len() ==> #[trigger] hay.subrange(k, k + nee.len())
                    != nee
        }),
{
    lemma_first_place(hay, nee, 0);
}

proof fn lemma_tail(s: Seq<char>, sep: char, i: int)
    requires
        0 <= i <= s.len(),
    ensures
        ({
            let a = tail_start(s, sep, i);
            &&& 0 <= a <= i
            &&& a > 0 ==> s[a - 1] == sep
            &&& forall|k: int| a <= k < i ==> #[trigger] s[k] != sep
        }),
    decreases i,
{
    if i > 0 && s[i - 1] != sep {
        lemma_tail(s, sep, i - 1);
    }
}

/// The tail of a text is what follows the last separator; the whole text where
/// there is none.
pub proof fn law_the_tail_follows_the_last_separator(s: Seq<char>, sep: char)
    ensures
        !tail_of(s, sep).contains(sep),
        !s.contains(sep) ==> tail_of(s, sep) == s,
        s.contains(sep) ==> exists|a: int|
            0 < a <= s.len() && s[a - 1] == sep && tail_of(s, sep) == #[trigger] s.skip(a),
{
    let a = tail_start(s, sep, s.len() as int);
    lemma_tail(s, sep, s.len() as int);
    let t = tail_of(s, sep);
    if t.contains(sep) {
        let k = choose|k: int| 0 <= k < t.len() && t[k] == sep;
        assert(s[a + k] == sep);
    }
    if !s.contains(sep) {
        assert(a == 0) by {
            if a > 0 {
                assert(s[a - 1] == sep);
            }
        }
        assert(s.skip(0) =~= s);
    } else {
        let k = choose|k: int| 0 <= k < s.len() && s[k] == sep;
        assert(a > k);
        assert(t == s.skip(a));
    }
}

} // verus!
