//! How a text falls into lines.
//!
//! A line ends after a line break and the break belongs to the line that it
//! ends; a carriage return directly before a line feed ends nothing by itself.
//! A text that ends in a break has one more, empty, line.

use vstd::prelude::*;

verus! {

/// The characters after which a line ends.
pub open spec fn is_line_break(c: char) -> bool {
    c == '\n' || c == '\u{b}' || c == '\u{c}' || c == '\r' || c == '\u{85}' || c == '\u{2028}' || c
        == '\u{2029}'
}

/// Whether a line ends just before position `i`, so that a new one starts there.
pub open spec fn line_ends_at(s: Seq<char>, i: int) -> bool {
    0 < i <= s.len() && is_line_break(s[i - 1]) && !(s[i - 1] == '\r' && i < s.len() && s[i]
        == '\n')
}

/// The line that position `c` is on: how many lines end at or before it.
pub open spec fn line_of(s: Seq<char>, c: int) -> int
    decreases c,
{
    if c <= 0 {
        0
    } else {
        line_of(s, c - 1) + if line_ends_at(s, c) {
            1int
        } else {
            0
        }
    }
}

/// How many lines the text has.
pub open spec fn line_total(s: Seq<char>) -> int {
    line_of(s, s.len() as int) + 1
}

/// The first position at or after `p` that is on line `l` or a later one.
pub open spec fn line_start_from(s: Seq<char>, l: int, p: int) -> int
    decreases s.len() - p,
{
    if p >= s.len() || line_of(s, p) >= l {
        p
    } else {
        line_start_from(s, l, p + 1)
    }
}

/// Where line `l` starts; the end of the text for a line past the last.
pub open spec fn line_start(s: Seq<char>, l: int) -> int {
    line_start_from(s, l, 0)
}

/// How many characters line `l` has, without a line feed at its end and
/// without a carriage return directly before that.
pub open spec fn line_len(s: Seq<char>, l: int) -> int {
    if 0 <= l < line_total(s) {
        let a = line_start(s, l);
        let e = line_start(s, l + 1);
        if e > a && s[e - 1] == '\n' {
            if e - 1 > a && s[e - 2] == '\r' {
                e - a - 2
            } else {
                e - a - 1
            }
        } else {
            e - a
        }
    } else {
        0
    }
}

/// The whole text of line `l`, with its break.
pub open spec fn line_text(s: Seq<char>, l: int) -> Seq<char> {
    s.subrange(line_start(s, l), line_start(s, l + 1))
}

/// How far position `c` is from the start of its line.
pub open spec fn col_of(s: Seq<char>, c: int) -> int {
    c - line_start(s, line_of(s, c))
}

/// Later positions are on the same line or on later ones, and a line has at
/// least one character.
pub proof fn lemma_line_of_monotone(s: Seq<char>, a: int, b: int)
    requires
        0 <= a <= b,
    ensures
        0 <= line_of(s, a) <= line_of(s, b) <= line_of(s, a) + (b - a),
    decreases b,
{
    if a < b {
        lemma_line_of_monotone(s, a, b - 1);
    } else if b > 0 {
        lemma_line_of_monotone(s, a - 1, b - 1);
    }
}

proof fn lemma_line_start_from(s: Seq<char>, l: int, p: int)
    requires
        0 <= p <= s.len(),
        forall|q: int| 0 <= q < p ==> line_of(s, q) < l,
    ensures
        ({
            let r = line_start_from(s, l, p);
            &&& p <= r <= s.len()
            &&& forall|q: int| 0 <= q < r ==> line_of(s, q) < l
            &&& r < s.len() ==> line_of(s, r) >= l
        }),
    decreases s.len() - p,
{
    if p >= s.len() || line_of(s, p) >= l {
    } else {
        lemma_line_start_from(s, l, p + 1);
    }
}

/// Where a line of the text starts: inside the text, on that line, and every
/// earlier position is on an earlier line.
pub proof fn lemma_line_start(s: Seq<char>, l: int)
    requires
        0 <= l < line_total(s),
    ensures
        0 <= line_start(s, l) <= s.len(),
        line_of(s, line_start(s, l)) == l,
        forall|q: int| 0 <= q < line_start(s, l) ==> line_of(s, q) < l,
        l == 0 ==> line_start(s, l) == 0,
        l > 0 ==> line_ends_at(s, line_start(s, l)),
{
    lemma_line_start_from(s, l, 0);
    let r = line_start(s, l);
    if r > 0 {
        assert(line_of(s, r - 1) < l);
        assert(line_of(s, r) >= l);
    }
}

/// A line past the last starts at the end of the text.
pub proof fn lemma_line_start_past_end(s: Seq<char>, l: int)
    requires
        l >= line_total(s),
    ensures
        line_start(s, l) == s.len(),
{
    lemma_line_start_from(s, l, 0);
    let r = line_start(s, l);
    if r < s.len() {
        lemma_line_of_monotone(s, r, s.len() as int);
    }
}

/// The line of a position starts at or before it, and the next line after it.
pub proof fn lemma_line_around(s: Seq<char>, c: int)
    requires
        0 <= c <= s.len(),
    ensures
        0 <= line_of(s, c) < line_total(s),
        0 <= line_start(s, line_of(s, c)) <= c,
        0 <= col_of(s, c) <= c,
        c <= line_start(s, line_of(s, c) + 1),
{
    lemma_line_of_monotone(s, c, s.len() as int);
    lemma_line_of_monotone(s, 0, c);
    let l = line_of(s, c);
    lemma_line_start(s, l);
    if c < line_start(s, l) {
        assert(line_of(s, c) < l);
    }
    lemma_line_start_from(s, l + 1, 0);
    let n = line_start(s, l + 1);
    if n < c {
        lemma_line_of_monotone(s, n, c);
    }
}

/// Lines start one after another, and each lies inside the text.
pub proof fn lemma_line_starts_increase(s: Seq<char>, l: int)
    requires
        0 <= l < line_total(s),
    ensures
        0 <= line_start(s, l) <= line_start(s, l + 1) <= s.len(),
        l + 1 < line_total(s) ==> line_start(s, l) < line_start(s, l + 1),
        0 <= line_len(s, l) <= line_start(s, l + 1) - line_start(s, l),
        line_len(s, l) == line_text(s, l).len() || line_text(s, l).len() > 0,
{
    lemma_line_start(s, l);
    if l + 1 < line_total(s) {
        lemma_line_start(s, l + 1);
        if line_start(s, l + 1) <= line_start(s, l) {
            lemma_line_of_monotone(s, line_start(s, l + 1), line_start(s, l));
        }
    } else {
        lemma_line_start_past_end(s, l + 1);
    }
}

} // verus!
