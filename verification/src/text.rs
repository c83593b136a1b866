//! Taking text apart: trimming, lines, searching, and numbers as text.

use crate::buffer::moves::lemma_fwd_while;
use crate::buffer::state::{back_while, fwd_while, occurs_at};
use crate::chars::{ascii_lower, to_ascii_lower};
use crate::filedialog::texts;
use crate::fuzzy::blanks;
use crate::strings::{chars_of, text_of};
use vstd::prelude::*;
use vstd::string::*;

verus! {

/// A text without white space at either end.
pub open spec fn trim_text(s: Seq<char>) -> Seq<char> {
    let a = fwd_while(s, 0, blanks());
    let b = back_while(s, s.len() as int, blanks());
    if a < b {
        s.subrange(a, b)
    } else {
        Seq::empty()
    }
}

/// `s` without white space at either end.
pub fn trim(s: &str) -> (r: String)
    ensures
        r@ == trim_text(s@),
{
    let v = chars_of(s);
    let mut a: usize = 0;
    while a < v.len() && v[a].is_whitespace()
        invariant
            a <= v.len(),
            v@ == s@,
            fwd_while(v@, 0, blanks()) == fwd_while(v@, a as int, blanks()),
        decreases v.len() - a,
    {
        a = a + 1;
    }
    let mut b: usize = v.len();
    while b > 0 && v[b - 1].is_whitespace()
        invariant
            b <= v.len(),
            v@ == s@,
            back_while(v@, v@.len() as int, blanks()) == back_while(v@, b as int, blanks()),
        decreases b,
    {
        b = b - 1;
    }
    if a < b {
        text_of(&v, a, b)
    } else {
        let r = String::new();
        assert(r@ =~= Seq::<char>::empty());
        r
    }
}

/// A text with its ASCII letters in lower case.
pub open spec fn lowered(s: Seq<char>) -> Seq<char> {
    Seq::new(s.len(), |i: int| ascii_lower(s[i]))
}

/// The characters of `v` with ASCII letters in lower case.
pub fn lower_chars(v: &Vec<char>) -> (r: Vec<char>)
    ensures
        r@ == lowered(v@),
{
    let mut r: Vec<char> = Vec::new();
    let mut i: usize = 0;
    while i < v.len()
        invariant
            i <= v.len(),
            r@ == lowered(v@.take(i as int)),
        decreases v.len() - i,
    {
        r.push(to_ascii_lower(v[i]));
        i = i + 1;
        assert(r@ =~= lowered(v@.take(i as int)));
    }
    assert(v@.take(i as int) =~= v@);
    r
}

/// `s` with ASCII letters in lower case.
pub fn lower_text(s: &str) -> (r: String)
    ensures
        r@ == lowered(s@),
{
    let v = chars_of(s);
    let w = lower_chars(&v);
    let r = text_of(&w, 0, w.len());
    assert(r@ =~= w@);
    r
}

/// Where what follows the last `sep` before `i` starts.
pub open spec fn tail_start(s: Seq<char>, sep: char, i: int) -> int
    decreases i,
{
    if i <= 0 || s[i - 1] == sep {
        i
    } else {
        tail_start(s, sep, i - 1)
    }
}

/// What follows the last `sep`, or the whole text where there is none.
pub open spec fn tail_of(s: Seq<char>, sep: char) -> Seq<char> {
    s.skip(tail_start(s, sep, s.len() as int))
}

/// What follows the last `sep` of `s`, or the whole text where there is none.
pub fn after_last(s: &str, sep: char) -> (r: String)
    ensures
        r@ == tail_of(s@, sep),
{
    let v = chars_of(s);
    let mut i: usize = v.len();
    while i > 0 && v[i - 1] != sep
        invariant
            i <= v.len(),
            v@ == s@,
            tail_start(s@, sep, s@.len() as int) == tail_start(s@, sep, i as int),
        decreases i,
    {
        i = i - 1;
    }
    let r = text_of(&v, i, v.len());
    assert(r@ =~= s@.skip(i as int));
    r
}

/// Whether `c` is in `s`.
pub fn has_char(s: &str, c: char) -> (r: bool)
    ensures
        r == s@.contains(c),
{
    let v = chars_of(s);
    let mut i: usize = 0;
    while i < v.len()
        invariant
            i <= v.len(),
            v@ == s@,
            forall|k: int| 0 <= k < i ==> s@[k] != c,
        decreases v.len() - i,
    {
        if v[i] == c {
            assert(s@[i as int] == c);
            return true;
        }
        i = i + 1;
    }
    false
}

/// Whether `p` is where `s` starts.
pub open spec fn begins_with(s: Seq<char>, p: Seq<char>) -> bool {
    p.len() <= s.len() && s.take(p.len() as int) == p
}

/// The first place from `i` on where `nee` occurs in `hay`, or -1.
pub open spec fn first_place(hay: Seq<char>, nee: Seq<char>, i: int) -> int
    decreases hay.len() - i + 1,
{
    if i + nee.len() > hay.len() {
        -1
    } else if occurs_at(hay, nee, i) {
        i
    } else {
        first_place(hay, nee, i + 1)
    }
}

/// Whether `nee` occurs in `hay` at `p`.
pub fn is_at(hay: &Vec<char>, nee: &Vec<char>, p: usize) -> (r: bool)
    requires
        p + nee@.len() <= hay@.len(),
    ensures
        r == occurs_at(hay@, nee@, p as int),
{
    let mut j: usize = 0;
    while j < nee.len()
        invariant
            j <= nee.len(),
            p + nee.len() <= hay.len(),
            forall|k: int| 0 <= k < j ==> hay@[p + k] == #[trigger] nee@[k],
        decreases nee.len() - j,
    {
        if hay[p + j] != nee[j] {
            assert(hay@.subrange(p as int, p + nee@.len())[j as int] == hay@[p + j]);
            return false;
        }
        j = j + 1;
    }
    assert(hay@.subrange(p as int, p + nee@.len()) =~= nee@);
    true
}

/// The first place from `from` on where `nee` occurs in `hay`.
pub fn find(hay: &Vec<char>, nee: &Vec<char>, from: usize) -> (r: Option<usize>)
    requires
        from <= hay@.len(),
    ensures
        match r {
            Some(p) => p == first_place(hay@, nee@, from as int) && p + nee@.len() <= hay@.len()
                && from <= p,
            None => first_place(hay@, nee@, from as int) == -1,
        },
{
    let mut i: usize = from;
    while nee.len() <= hay.len() - i
        invariant
            from <= i <= hay@.len(),
            first_place(hay@, nee@, from as int) == first_place(hay@, nee@, i as int),
        decreases hay.len() - i,
    {
        if is_at(hay, nee, i) {
            return Some(i);
        }
        if i == hay.len() {
            assert(hay@.subrange(i as int, i + nee@.len()) =~= nee@);
            return None;
        }
        i = i + 1;
    }
    None
}

/// The decimal digits of `n`, without leading zeros.
pub open spec fn decimal(n: nat) -> Seq<char>
    decreases n,
{
    if n < 10 {
        seq![digit_char(n)]
    } else {
        decimal(n / 10).push(digit_char(n % 10))
    }
}

/// The character for a number below ten.
pub open spec fn digit_char(d: nat) -> char {
    (('0' as int) + d) as char
}

/// `n` in decimal.
pub fn decimal_text(n: usize) -> (r: String)
    ensures
        r@ == decimal(n as nat),
    decreases n,
{
    if n < 10 {
        crate::strings::one_char((0x30u8 + n as u8) as char)
    } else {
        let mut r = decimal_text(n / 10);
        r.push((0x30u8 + (n % 10) as u8) as char);
        r
    }
}

/// Everything but a line feed.
pub open spec fn in_line() -> spec_fn(char) -> bool {
    |c: char| c != '\n'
}

/// The lines of `s` from `i` on, without their ends: a line ends in a line
/// feed, or in a carriage return and a line feed; the last one may lack it.
pub open spec fn lines_from(s: Seq<char>, i: int) -> Seq<Seq<char>>
    decreases s.len() - i + 1,
{
    let e = fwd_while(s, i, in_line());
    if !(0 <= i < s.len()) {
        Seq::empty()
    } else {
        proof {
            lemma_fwd_while(s, i, in_line());
        }
        seq![s.subrange(i, line_stop(s, i, e))] + lines_from(s, e + 1)
    }
}

/// Where the text of the line that runs from `i` to `e` stops.
pub open spec fn line_stop(s: Seq<char>, i: int, e: int) -> int {
    if e < s.len() && e > i && s[e - 1] == '\r' {
        e - 1
    } else {
        e
    }
}

/// The lines of a text.
pub open spec fn text_lines(s: Seq<char>) -> Seq<Seq<char>> {
    lines_from(s, 0)
}

/// The lines of a text, without their ends.
pub fn split_lines(s: &str) -> (r: Vec<String>)
    ensures
        texts(r@) == text_lines(s@),
{
    let v = chars_of(s);
    let mut out: Vec<String> = Vec::new();
    let mut i: usize = 0;
    assert(texts(out@) + lines_from(s@, 0) =~= text_lines(s@));
    while i < v.len()
        invariant
            v@ == s@,
            i <= v@.len(),
            texts(out@) + lines_from(s@, i as int) == text_lines(s@),
        decreases v.len() - i,
    {
        let mut e: usize = i;
        while e < v.len() && v[e] != '\n'
            invariant
                i <= e <= v.len(),
                v@ == s@,
                fwd_while(s@, i as int, in_line()) == fwd_while(s@, e as int, in_line()),
            decreases v.len() - e,
        {
            e = e + 1;
        }
        let stop: usize = if e < v.len() && e > i && v[e - 1] == '\r' {
            e - 1
        } else {
            e
        };
        let ghost before = texts(out@);
        let line = text_of(&v, i, stop);
        out.push(line);
        proof {
            assert(texts(out@) =~= before.push(s@.subrange(i as int, stop as int)));
            assert(before.push(s@.subrange(i as int, stop as int)) + lines_from(s@, e + 1)
                =~= before + (seq![s@.subrange(i as int, stop as int)] + lines_from(s@, e + 1)));
        }
        i = if e < v.len() {
            e + 1
        } else {
            e
        };
    }
    assert(texts(out@) + lines_from(s@, i as int) =~= texts(out@));
    out
}

/// A text between two others.
pub fn between(before: &str, text: &str, after: &str) -> (r: String)
    ensures
        r@ == before@ + text@ + after@,
{
    let mut r = before.to_owned();
    r.append(text);
    r.append(after);
    r
}

/// A number between two texts.
pub fn with_number(before: &str, n: usize, after: &str) -> (r: String)
    ensures
        r@ == before@ + decimal(n as nat) + after@,
{
    let d = decimal_text(n);
    between(before, d.as_str(), after)
}

} // verus!
