//! What keys do in a one-line field.

use crate::buffer::editlaws::{no_word_ends, no_word_starts, word_ends, word_starts};
use crate::buffer::movelaws::law_words_are_gone_over_one_by_one;
use crate::buffer::moves::lemma_prev_word;
use crate::buffer::state::{spliced, CaretAt};
use crate::editline::{Edit, Field};
use crate::keyevent::KeyCode;
use vstd::prelude::*;

verus! {

/// The nearer end of the selection, or the cursor.
pub open spec fn from_of(f: Field) -> int {
    match f.anchor {
        Some(a) => if a < f.cursor {
            a
        } else {
            f.cursor
        },
        None => f.cursor,
    }
}

/// The further end of the selection, or the cursor.
pub open spec fn to_of(f: Field) -> int {
    match f.anchor {
        Some(a) => if a > f.cursor {
            a
        } else {
            f.cursor
        },
        None => f.cursor,
    }
}

/// Whether `g` is `f` with the characters from `from` to `to` replaced by `ins` and
/// the cursor behind that.
pub open spec fn puts(f: Field, from: int, to: int, ins: Seq<char>, g: Field) -> bool {
    &&& g.text == f.text.take(from) + ins + f.text.skip(to)
    &&& g.cursor == from + ins.len()
}

/// Text typed or pasted into a field takes the place of the selection, and nothing
/// is selected behind it. Cutting takes the selection alone. What is copied is the
/// selection.
pub proof fn law_fields_take_text_at_the_cursor(f: Field, t: Seq<char>)
    requires
        f.wf(),
    ensures
        puts(f, from_of(f), to_of(f), t, f.typed(t)),
        f.typed(t).anchor is None,
        from_of(f) < to_of(f) ==> puts(f, from_of(f), to_of(f), Seq::empty(), f.cut())
            && f.cut().anchor is None && f.selection_text() == Some(
            f.text.subrange(from_of(f), to_of(f)),
        ),
        from_of(f) == to_of(f) ==> f.cut() == f && f.selection_text() is None,
{
    let a = from_of(f);
    let e = to_of(f);
    let m = spliced(f.text, a, e, Seq::empty());
    if a < e {
        assert(f.cut().text == m);
        assert(spliced(m, a, a, t) =~= f.text.take(a) + t + f.text.skip(e));
    }
}

/// The keys that delete in a field: Backspace takes the selection or else the
/// character before the cursor, with Alt everything from the last start of a word
/// on, and Delete the selection or else the character behind the cursor.
pub proof fn law_fields_delete_around_the_cursor(f: Field, ctrl: bool, shift: bool)
    requires
        f.wf(),
    ensures
        ({
            let b = f.after_key(KeyCode::Backspace, ctrl, false, shift).0;
            let w = f.after_key(KeyCode::Backspace, ctrl, true, shift).0;
            let d = f.after_key(KeyCode::Delete, ctrl, false, shift).0;
            let c = f.cursor;
            let e = Seq::<char>::empty();
            &&& from_of(f) < to_of(f) ==> puts(f, from_of(f), to_of(f), e, b) && w == b && d == b
            &&& from_of(f) == to_of(f) ==> {
                &&& c > 0 ==> puts(f, c - 1, c, e, b)
                &&& c == 0 ==> b == f
                &&& c < f.text.len() ==> puts(f, c, c + 1, e, d)
                &&& c == f.text.len() ==> d == f
                &&& c == 0 ==> w == f
                &&& c > 0 ==> puts(f, w.cursor, c, e, w) && 0 <= w.cursor < c && no_word_starts(
                    f.text,
                    w.cursor,
                    c,
                ) && (w.cursor == 0 || word_starts(f.text, w.cursor))
            }
        }),
        f.after_key(KeyCode::Backspace, ctrl, false, shift).1 == Edit::Changed,
        f.after_key(KeyCode::Backspace, ctrl, true, shift).1 == Edit::Changed,
        f.after_key(KeyCode::Delete, ctrl, false, shift).1 == Edit::Changed,
{
    reveal(Field::after_key);
    let at = CaretAt { cursor: f.cursor, anchor: None, goal_col: 0 };
    law_words_are_gone_over_one_by_one(f.text, at);
    lemma_prev_word(f.text, f.cursor);
}

/// Whether a movement led to `p`: with Shift the other end of the selection stays,
/// or is where the cursor was; without Shift nothing is selected.
pub open spec fn goes_to(f: Field, p: int, shift: bool, g: Field) -> bool {
    &&& g.text == f.text
    &&& g.cursor == p
    &&& !shift ==> g.anchor is None
    &&& shift ==> g.anchor == Some(
        match f.anchor {
            Some(a) => a,
            None => f.cursor,
        },
    )
}

/// The keys that move in a field: the arrows by one place, with Control to the ends,
/// with Alt by words; Home and End to the ends. They select with Shift.
pub proof fn law_fields_move_with_the_arrows(f: Field, shift: bool)
    requires
        f.wf(),
    ensures
        ({
            let n = f.text.len() as int;
            let l = f.after_key(KeyCode::Left, false, false, shift);
            let r = f.after_key(KeyCode::Right, false, false, shift);
            &&& l.1 == Edit::Moved && r.1 == Edit::Moved
            &&& goes_to(
                f,
                if f.cursor > 0 {
                    f.cursor - 1
                } else {
                    0
                },
                shift,
                l.0,
            )
            &&& goes_to(
                f,
                if f.cursor < n {
                    f.cursor + 1
                } else {
                    n
                },
                shift,
                r.0,
            )
            &&& goes_to(f, 0, shift, f.after_key(KeyCode::Home, false, false, shift).0)
            &&& goes_to(f, n, shift, f.after_key(KeyCode::End, false, false, shift).0)
            &&& goes_to(f, 0, shift, f.after_key(KeyCode::Left, true, false, shift).0)
            &&& goes_to(f, n, shift, f.after_key(KeyCode::Right, true, false, shift).0)
        }),
        ({
            let n = f.text.len() as int;
            let l = f.after_key(KeyCode::Left, false, true, shift).0;
            let r = f.after_key(KeyCode::Right, false, true, shift).0;
            &&& goes_to(f, l.cursor, shift, l)
            &&& goes_to(f, r.cursor, shift, r)
            &&& 0 <= l.cursor <= f.cursor <= r.cursor <= n
            &&& l.cursor == 0 || (l.cursor < f.cursor && word_starts(f.text, l.cursor))
            &&& no_word_starts(f.text, l.cursor, f.cursor)
            &&& r.cursor == n || (r.cursor > f.cursor && word_ends(f.text, r.cursor))
            &&& no_word_ends(f.text, f.cursor, r.cursor)
        }),
{
    reveal(Field::after_key);
    let at = CaretAt { cursor: f.cursor, anchor: None, goal_col: 0 };
    law_words_are_gone_over_one_by_one(f.text, at);
}

/// A character is typed; with Control, A selects all, and C, X and V ask to copy, to
/// cut and to paste and change nothing by themselves.
pub proof fn law_fields_know_the_clipboard_chords(f: Field, c: char, shift: bool)
    requires
        f.wf(),
    ensures
        f.after_key(KeyCode::Char(c), false, false, shift) == (f.typed(seq![c]), Edit::Changed),
        c == 'a' || c == 'A' ==> f.after_key(KeyCode::Char(c), true, false, shift) == (
            Field { text: f.text, anchor: Some(0int), cursor: f.text.len() as int },
            Edit::Moved,
        ),
        c == 'c' || c == 'C' ==> f.after_key(KeyCode::Char(c), true, false, shift) == (
            f,
            Edit::Copy,
        ),
        c == 'x' || c == 'X' ==> f.after_key(KeyCode::Char(c), true, false, shift) == (f, Edit::Cut),
        c == 'v' || c == 'V' ==> f.after_key(KeyCode::Char(c), true, false, shift) == (
            f,
            Edit::Paste,
        ),
{
    reveal(Field::after_key);
}

/// A cursor or an anchor past the end of the text comes back to the end, and all
/// else stays.
pub proof fn law_fields_come_back_into_the_text(f: Field)
    requires
        0 <= f.cursor,
        f.anchor matches Some(a) ==> 0 <= a,
    ensures
        f.clamped().wf(),
        f.clamped().text == f.text,
        f.wf() ==> f.clamped() == f,
        f.cursor > f.text.len() ==> f.clamped().cursor == f.text.len(),
{
}

} // verus!
