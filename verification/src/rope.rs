//! The text store: `ropey::Rope`, seen as the sequence of its characters.

use crate::lines::{line_of, line_start, line_text, line_total};
use ropey::Rope;
use vstd::prelude::*;

verus! {

/// `ropey::Rope`, an opaque store of text.
#[verifier::external_type_specification]
#[verifier::external_body]
pub struct ExRope(ropey::Rope);

/// The characters that a rope holds.
pub uninterp spec fn rope_text(r: Rope) -> Seq<char>;

/// A rope counts bytes in a `usize`, and a character takes at most four.
pub open spec fn fits_rope(chars: nat) -> bool {
    4 * chars <= usize::MAX
}

/// `Rope::new` makes an empty rope.
#[verifier::external_body]
pub(crate) fn rope_new() -> (r: Rope)
    ensures
        rope_text(r) == Seq::<char>::empty(),
{
    Rope::new()
}

/// `Rope::from_str` makes a rope that holds the characters of `text`.
#[verifier::external_body]
pub(crate) fn rope_from_str(text: &str) -> (r: Rope)
    ensures
        rope_text(r) == text@,
{
    Rope::from_str(text)
}

/// `Rope::clone` makes a rope with the same text.
#[verifier::external_body]
pub(crate) fn rope_clone(r: &Rope) -> (c: Rope)
    ensures
        rope_text(c) == rope_text(*r),
{
    r.clone()
}

/// `==` on ropes compares their texts.
#[verifier::external_body]
pub(crate) fn rope_same(a: &Rope, b: &Rope) -> (r: bool)
    ensures
        r == (rope_text(*a) == rope_text(*b)),
{
    a == b
}

/// `Rope::len_chars` counts the characters.
#[verifier::external_body]
pub(crate) fn rope_len_chars(r: &Rope) -> (n: usize)
    ensures
        n == rope_text(*r).len(),
{
    r.len_chars()
}

/// `Rope::len_lines` counts the lines; an empty rope has one.
#[verifier::external_body]
pub(crate) fn rope_len_lines(r: &Rope) -> (n: usize)
    ensures
        n == line_total(rope_text(*r)),
{
    r.len_lines()
}

/// `Rope::char_to_line` gives the line that a position is on. It panics past
/// the end.
#[verifier::external_body]
pub(crate) fn rope_char_to_line(r: &Rope, pos: usize) -> (line: usize)
    requires
        pos <= rope_text(*r).len(),
    ensures
        line == line_of(rope_text(*r), pos as int),
{
    r.char_to_line(pos)
}

/// `Rope::line_to_char` gives the position where a line starts, and the end of
/// the text for the line one past the last. It panics further on.
#[verifier::external_body]
pub(crate) fn rope_line_to_char(r: &Rope, line: usize) -> (pos: usize)
    requires
        line <= line_total(rope_text(*r)),
    ensures
        pos == line_start(rope_text(*r), line as int),
{
    r.line_to_char(line)
}

/// `Rope::line` gives the text of one line with its break. It panics past the
/// last line.
#[verifier::external_body]
pub(crate) fn rope_line(r: &Rope, line: usize) -> (s: String)
    requires
        line < line_total(rope_text(*r)),
    ensures
        s@ == line_text(rope_text(*r), line as int),
{
    r.line(line).to_string()
}

/// `Rope::char` reads one character. It panics past the end.
#[verifier::external_body]
pub(crate) fn rope_char(r: &Rope, pos: usize) -> (c: char)
    requires
        pos < rope_text(*r).len(),
    ensures
        c == rope_text(*r)[pos as int],
{
    r.char(pos)
}

/// `Rope::get_char` reads one character, or nothing past the end.
#[verifier::external_body]
pub(crate) fn rope_get_char(r: &Rope, pos: usize) -> (c: Option<char>)
    ensures
        c == if pos < rope_text(*r).len() {
            Some(rope_text(*r)[pos as int])
        } else {
            None
        },
{
    r.get_char(pos)
}

/// `Rope::insert` puts `text` in front of position `at`. It panics past the end.
#[verifier::external_body]
pub(crate) fn rope_insert(r: &mut Rope, at: usize, text: &str)
    requires
        at <= rope_text(*old(r)).len(),
        fits_rope(rope_text(*old(r)).len() + text@.len()),
    ensures
        rope_text(*final(r)) == rope_text(*old(r)).take(at as int) + text@ + rope_text(
            *old(r),
        ).skip(at as int),
{
    r.insert(at, text)
}

/// `Rope::insert_char` puts `c` in front of position `at`. It panics past the
/// end.
#[verifier::external_body]
pub(crate) fn rope_insert_char(r: &mut Rope, at: usize, c: char)
    requires
        at <= rope_text(*old(r)).len(),
        fits_rope(rope_text(*old(r)).len() + 1),
    ensures
        rope_text(*final(r)) == rope_text(*old(r)).take(at as int) + seq![c] + rope_text(
            *old(r),
        ).skip(at as int),
{
    r.insert_char(at, c)
}

/// `Rope::remove` takes the characters `from..to` out. It panics on a range
/// that is reversed or runs past the end.
#[verifier::external_body]
pub(crate) fn rope_remove(r: &mut Rope, from: usize, to: usize)
    requires
        from <= to <= rope_text(*old(r)).len(),
    ensures
        rope_text(*final(r)) == rope_text(*old(r)).take(from as int) + rope_text(*old(r)).skip(
            to as int,
        ),
{
    r.remove(from..to)
}

/// `Rope::slice` reads the characters `from..to`. It panics on a range that is
/// reversed or runs past the end.
#[verifier::external_body]
pub(crate) fn rope_slice(r: &Rope, from: usize, to: usize) -> (s: String)
    requires
        from <= to <= rope_text(*r).len(),
    ensures
        s@ == rope_text(*r).subrange(from as int, to as int),
{
    r.slice(from..to).to_string()
}

/// `Rope::chars` walks all the characters in order.
#[verifier::external_body]
pub(crate) fn rope_chars(r: &Rope) -> (v: Vec<char>)
    ensures
        v@ == rope_text(*r),
{
    r.chars().collect()
}

} // verus!
