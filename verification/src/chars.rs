//! Character classes.

use vstd::prelude::*;

verus! {

/// What `char::is_alphanumeric` says: whether a character is a letter or a
/// number in Unicode's sense.
pub uninterp spec fn char_is_alphanumeric(c: char) -> bool;

/// `char::is_alphanumeric` tells letters and numbers, in Unicode's sense, from
/// everything else.
pub assume_specification[ char::is_alphanumeric ](c: char) -> (r: bool)
    ensures
        r == char_is_alphanumeric(c),
;

/// What `char::is_uppercase` says: whether a character is an upper-case one in
/// Unicode's sense.
pub uninterp spec fn char_is_uppercase(c: char) -> bool;

/// `char::is_uppercase` tells upper-case characters, in Unicode's sense, from
/// everything else.
pub assume_specification[ char::is_uppercase ](c: char) -> (r: bool)
    ensures
        r == char_is_uppercase(c),
;

/// What `char::is_whitespace` says: whether a character is white space in
/// Unicode's sense.
pub uninterp spec fn char_is_whitespace(c: char) -> bool;

/// `char::is_whitespace` tells white space, in Unicode's sense, from everything
/// else.
pub assume_specification[ char::is_whitespace ](c: char) -> (r: bool)
    ensures
        r == char_is_whitespace(c),
;

/// `c` in lower case, where it is an ASCII letter.
pub open spec fn ascii_lower(c: char) -> char {
    if 'A' <= c <= 'Z' {
        ((c as u32) + 32) as char
    } else {
        c
    }
}

/// `c` in lower case, where it is an ASCII letter.
pub fn to_ascii_lower(c: char) -> (r: char)
    ensures
        r == ascii_lower(c),
{
    if 'A' <= c && c <= 'Z' {
        ((c as u8) + 32) as char
    } else {
        c
    }
}

/// Whether `c` is part of a word: a letter, a digit or an underscore.
pub open spec fn is_word(c: char) -> bool {
    char_is_alphanumeric(c) || c == '_'
}

/// Whether `c` is part of a word for movement by words. Everything else,
/// spaces and punctuation, separates words.
pub fn is_word_char(c: char) -> (r: bool)
    ensures
        r == is_word(c),
{
    c.is_alphanumeric() || c == '_'
}

} // verus!
