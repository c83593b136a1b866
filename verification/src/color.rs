//! Colours, and how they are written down.

use crate::strings::chars_of;
use vstd::prelude::*;

verus! {

/// A colour by its red, green and blue parts.
#[derive(Debug, Clone, Copy, PartialEq, Eq, Structural)]
pub struct Rgb(pub u8, pub u8, pub u8);

/// The hexadecimal digit of a number below sixteen, in lower case.
pub open spec fn hex_digit(n: int) -> char {
    if n < 10 {
        ('0' as int + n) as char
    } else {
        ('a' as int + n - 10) as char
    }
}

/// The number that a hexadecimal digit stands for, or -1.
pub open spec fn hex_value(c: char) -> int {
    if '0' <= c <= '9' {
        c as int - '0' as int
    } else if 'a' <= c <= 'f' {
        c as int - 'a' as int + 10
    } else if 'A' <= c <= 'F' {
        c as int - 'A' as int + 10
    } else {
        -1
    }
}

/// A colour as `#rrggbb`.
pub open spec fn hex_text(c: Rgb) -> Seq<char> {
    seq![
        '#',
        hex_digit(c.0 as int / 16),
        hex_digit(c.0 as int % 16),
        hex_digit(c.1 as int / 16),
        hex_digit(c.1 as int % 16),
        hex_digit(c.2 as int / 16),
        hex_digit(c.2 as int % 16),
    ]
}

/// Whether a text is `#` and six hexadecimal digits.
pub open spec fn is_hex_text(s: Seq<char>) -> bool {
    s.len() == 7 && s[0] == '#' && forall|i: int| 1 <= i < 7 ==> hex_value(#[trigger] s[i]) >= 0
}

/// The colour that a text stands for.
pub open spec fn hex_color(s: Seq<char>) -> Option<Rgb> {
    if is_hex_text(s) {
        Some(
            Rgb(
                (hex_value(s[1]) * 16 + hex_value(s[2])) as u8,
                (hex_value(s[3]) * 16 + hex_value(s[4])) as u8,
                (hex_value(s[5]) * 16 + hex_value(s[6])) as u8,
            ),
        )
    } else {
        None
    }
}

fn digit(n: u8) -> (c: char)
    requires
        n < 16,
    ensures
        c == hex_digit(n as int),
{
    if n < 10 {
        (0x30u8 + n) as char
    } else {
        (0x61u8 + (n - 10)) as char
    }
}

fn value(c: char) -> (r: Option<u8>)
    ensures
        match r {
            Some(n) => n == hex_value(c) && n < 16,
            None => hex_value(c) == -1,
        },
{
    if '0' <= c && c <= '9' {
        Some(c as u8 - 0x30u8)
    } else if 'a' <= c && c <= 'f' {
        Some(c as u8 - 0x61u8 + 10)
    } else if 'A' <= c && c <= 'F' {
        Some(c as u8 - 0x41u8 + 10)
    } else {
        None
    }
}

/// A colour as `#rrggbb`.
pub fn to_hex(c: Rgb) -> (r: String)
    ensures
        r@ == hex_text(c),
{
    let mut s = String::new();
    s.push('#');
    s.push(digit(c.0 / 16));
    s.push(digit(c.0 % 16));
    s.push(digit(c.1 / 16));
    s.push(digit(c.1 % 16));
    s.push(digit(c.2 / 16));
    s.push(digit(c.2 % 16));
    assert(s@ =~= hex_text(c));
    s
}

/// Two digits as one number.
fn pair(v: &Vec<char>, i: usize) -> (r: Option<u8>)
    requires
        i + 1 < v.len(),
    ensures
        match r {
            Some(n) => hex_value(v@[i as int]) >= 0 && hex_value(v@[i + 1]) >= 0 && n == hex_value(
                v@[i as int],
            ) * 16 + hex_value(v@[i + 1]),
            None => hex_value(v@[i as int]) < 0 || hex_value(v@[i + 1]) < 0,
        },
{
    match (value(v[i]), value(v[i + 1])) {
        (Some(a), Some(b)) => Some(a * 16 + b),
        _ => None,
    }
}

/// The colour that `#rrggbb` stands for, or none for any other text.
pub fn from_hex(s: &str) -> (r: Option<Rgb>)
    ensures
        r == hex_color(s@),
{
    let v = chars_of(s);
    if v.len() != 7 || v[0] != '#' {
        return None;
    }
    match (pair(&v, 1), pair(&v, 3), pair(&v, 5)) {
        (Some(r), Some(g), Some(b)) => {
            assert forall|i: int| 1 <= i < 7 implies hex_value(#[trigger] s@[i]) >= 0 by {
                assert(i == 1 || i == 2 || i == 3 || i == 4 || i == 5 || i == 6);
            }
            Some(Rgb(r, g, b))
        },
        _ => None,
    }
}

/// A colour that was written down reads back as it was.
pub proof fn law_colors_read_back(c: Rgb)
    ensures
        hex_color(hex_text(c)) == Some(c),
{
    let s = hex_text(c);
    assert forall|i: int| 1 <= i < 7 implies hex_value(#[trigger] s[i]) >= 0 by {
        assert(i == 1 || i == 2 || i == 3 || i == 4 || i == 5 || i == 6);
    }
}

/// A colour is written as a number sign and two digits each for red, green and blue,
/// in this order, the digits from 0 to 9 and then from a to f.
pub proof fn law_colors_are_written_red_first(c: Rgb, n: int)
    ensures
        hex_text(c).len() == 7,
        hex_text(c)[0] == '#',
        16 * hex_value(hex_text(c)[1]) + hex_value(hex_text(c)[2]) == c.0,
        16 * hex_value(hex_text(c)[3]) + hex_value(hex_text(c)[4]) == c.1,
        16 * hex_value(hex_text(c)[5]) + hex_value(hex_text(c)[6]) == c.2,
        0 <= n < 10 ==> hex_digit(n) as int == 48 + n && hex_value((48 + n) as char) == n,
        10 <= n < 16 ==> hex_digit(n) as int == 87 + n && hex_value((87 + n) as char) == n
            && hex_value((55 + n) as char) == n,
{
}

} // verus!
