//! Single-line text editing for the small inputs: the find bar, the search
//! boxes, the name prompt.
//!
//! `cursor` and `anchor` count characters; a position past the end stands for
//! the end.

use crate::buffer::moves::{lemma_next_word, lemma_prev_word};
use crate::buffer::opt_int;
use crate::buffer::opt_text;
use crate::buffer::state::{
    back_while, fwd_while, least, next_word, prev_word, separators, spliced, words,
};
use crate::chars::is_word_char;
use crate::keyevent::{KeyCode, KeyEvent};
use crate::strings::{chars_of, text_of};
use vstd::prelude::*;
use vstd::string::*;

verus! {

/// A one-line field: its text, the cursor and the fixed end of a selection.
#[verifier::ext_equal]
pub struct Field {
    pub text: Seq<char>,
    pub cursor: int,
    pub anchor: Option<int>,
}

impl Field {
    /// Whether something is selected.
    pub open spec fn selecting(self) -> bool {
        self.anchor is Some && self.anchor->0 != self.cursor
    }

    pub open spec fn start(self) -> int {
        if self.selecting() {
            least(self.anchor->0, self.cursor)
        } else {
            self.cursor
        }
    }

    pub open spec fn end(self) -> int {
        if self.selecting() && self.anchor->0 > self.cursor {
            self.anchor->0
        } else {
            self.cursor
        }
    }

    /// The cursor and the anchor are in the text.
    pub open spec fn wf(self) -> bool {
        &&& 0 <= self.cursor <= self.text.len()
        &&& self.anchor matches Some(a) ==> 0 <= a <= self.text.len()
    }

    /// `i`, or the end of the text where that comes first.
    pub open spec fn clip(self, i: int) -> int {
        least(i, self.text.len() as int)
    }

    /// The text with the characters `from..to` replaced.
    pub open spec fn with_text(self, from: int, to: int, ins: Seq<char>) -> Field {
        Field { text: spliced(self.text, self.clip(from), self.clip(to), ins), ..self }
    }

    /// What is selected.
    pub open spec fn selection_text(self) -> Option<Seq<char>> {
        if self.selecting() {
            Some(self.text.subrange(self.clip(self.start()), self.clip(self.end())))
        } else {
            None
        }
    }

    /// With the cursor and the anchor brought back into the text.
    pub open spec fn clamped(self) -> Field {
        Field {
            cursor: self.clip(self.cursor),
            anchor: match self.anchor {
                Some(a) => Some(self.clip(a)),
                None => None,
            },
            ..self
        }
    }

    /// Without the selected text.
    pub open spec fn cut(self) -> Field {
        if self.selecting() {
            Field {
                cursor: self.start(),
                anchor: None,
                ..self.with_text(self.start(), self.end(), Seq::empty())
            }
        } else {
            self
        }
    }

    /// `ins` typed over the selection.
    pub open spec fn typed(self, ins: Seq<char>) -> Field {
        let f = self.cut();
        Field {
            cursor: f.cursor + ins.len(),
            anchor: None,
            ..f.with_text(f.cursor, f.cursor, ins)
        }
    }

    /// The characters from `from` to the cursor gone.
    pub open spec fn back_to(self, from: int) -> Field {
        Field { cursor: from, ..self.with_text(from, self.cursor, Seq::empty()) }
    }

    pub open spec fn backspaced(self) -> Field {
        if self.selecting() {
            self.cut()
        } else if self.cursor == 0 {
            self
        } else {
            self.back_to(self.cursor - 1)
        }
    }

    pub open spec fn deleted(self) -> Field {
        if self.selecting() {
            self.cut()
        } else if self.cursor >= self.text.len() {
            self
        } else {
            self.with_text(self.cursor, self.cursor + 1, Seq::empty())
        }
    }

    pub open spec fn word_deleted(self) -> Field {
        let start = prev_word(self.text, self.clip(self.cursor));
        if self.selecting() {
            self.cut()
        } else if start == self.cursor {
            self
        } else {
            self.back_to(start)
        }
    }

    /// The cursor moved; the selection grows with Shift held and goes without.
    pub open spec fn moved_to(self, cursor: int, shift: bool) -> Field {
        Field {
            cursor,
            anchor: if !shift {
                None
            } else if self.anchor is Some {
                self.anchor
            } else {
                Some(self.cursor)
            },
            ..self
        }
    }

    pub open spec fn all_selected(self) -> Field {
        Field { anchor: Some(0), cursor: self.text.len() as int, ..self }
    }

    /// Where one step to the left leads.
    pub open spec fn left_of(self) -> int {
        if self.cursor > 0 {
            self.cursor - 1
        } else {
            0
        }
    }

    /// Where one step to the right leads.
    pub open spec fn right_of(self) -> int {
        if self.cursor < self.text.len() {
            self.cursor + 1
        } else {
            self.cursor
        }
    }

    /// What a key makes of the field, and what it was.
    #[verifier::opaque]
    pub open spec fn after_key(self, code: KeyCode, ctrl: bool, alt: bool, shift: bool) -> (
        Field,
        Edit,
    ) {
        let here = self.clip(self.cursor);
        match code {
            KeyCode::Left => if alt {
                (self.moved_to(prev_word(self.text, here), shift), Edit::Moved)
            } else if ctrl {
                (self.moved_to(0, shift), Edit::Moved)
            } else {
                (self.moved_to(self.left_of(), shift), Edit::Moved)
            },
            KeyCode::Right => if alt {
                (self.moved_to(next_word(self.text, here), shift), Edit::Moved)
            } else if ctrl {
                (self.moved_to(self.text.len() as int, shift), Edit::Moved)
            } else {
                (self.moved_to(self.right_of(), shift), Edit::Moved)
            },
            KeyCode::Home => (self.moved_to(0, shift), Edit::Moved),
            KeyCode::End => (self.moved_to(self.text.len() as int, shift), Edit::Moved),
            KeyCode::Backspace => if alt {
                (self.word_deleted(), Edit::Changed)
            } else {
                (self.backspaced(), Edit::Changed)
            },
            KeyCode::Delete => (self.deleted(), Edit::Changed),
            KeyCode::Char(c) => if ctrl && (c == 'a' || c == 'A') {
                (self.all_selected(), Edit::Moved)
            } else if ctrl && (c == 'c' || c == 'C') {
                (self, Edit::Copy)
            } else if ctrl && (c == 'x' || c == 'X') {
                (self, Edit::Cut)
            } else if ctrl && (c == 'v' || c == 'V') {
                (self, Edit::Paste)
            } else if !ctrl && !alt {
                (self.typed(seq![c]), Edit::Changed)
            } else {
                (self, Edit::Ignored)
            },
            _ => (self, Edit::Ignored),
        }
    }
}

/// The field that these three make.
pub open spec fn field(text: Seq<char>, cursor: usize, anchor: Option<usize>) -> Field {
    Field { text, cursor: cursor as int, anchor: opt_int(anchor) }
}

/// What a key did to a field. The clipboard ones are requests to the caller.
#[derive(Clone, Copy, PartialEq, Eq, Debug, Structural)]
pub enum Edit {
    /// Not a field key.
    Ignored,
    /// The cursor or selection moved; the text is unchanged.
    Moved,
    /// The text may have changed.
    Changed,
    /// Copy the selection.
    Copy,
    /// Copy the selection, then delete it.
    Cut,
    /// Insert the clipboard at the cursor.
    Paste,
}

/// Number of characters in `text`.
pub fn char_len(text: &str) -> (n: usize)
    ensures
        n == text@.len(),
{
    text.unicode_len()
}

/// The selected range in reading order, or `None` when there is none.
pub fn selection(cursor: usize, anchor: Option<usize>) -> (r: Option<(usize, usize)>)
    ensures
        match r {
            Some((s, e)) => anchor is Some && anchor->0 != cursor && s == least(
                anchor->0 as int,
                cursor as int,
            ) && e == (if anchor->0 > cursor {
                anchor->0
            } else {
                cursor
            }),
            None => anchor is None || anchor->0 == cursor,
        },
{
    match anchor {
        Some(a) => if a < cursor {
            Some((a, cursor))
        } else if a > cursor {
            Some((cursor, a))
        } else {
            None
        },
        None => None,
    }
}

/// The selected text, if any.
pub fn selected_text(text: &str, cursor: usize, anchor: Option<usize>) -> (r: Option<String>)
    ensures
        opt_text(r) == field(text@, cursor, anchor).selection_text(),
{
    match selection(cursor, anchor) {
        Some((s, e)) => {
            let v = chars_of(text);
            Some(text_of(&v, clip(&v, s), clip(&v, e)))
        },
        None => None,
    }
}

fn clip(v: &Vec<char>, i: usize) -> (r: usize)
    ensures
        r == least(i as int, v@.len() as int),
{
    if i <= v.len() {
        i
    } else {
        v.len()
    }
}

/// Replace the characters `from..to`, as far as the text reaches.
fn replace(text: &mut String, from: usize, to: usize, ins: &str)
    requires
        from <= to,
    ensures
        final(text)@ == ({
            let t = old(text)@;
            spliced(t, least(from as int, t.len() as int), least(to as int, t.len() as int), ins@)
        }),
{
    let v = chars_of(text.as_str());
    let a: usize = clip(&v, from);
    let b: usize = clip(&v, to);
    let mut r = text_of(&v, 0, a);
    r.append(ins);
    r.append(text_of(&v, b, v.len()).as_str());
    proof {
        assert(v@.subrange(0, a as int) =~= v@.take(a as int));
        assert(v@.subrange(b as int, v@.len() as int) =~= v@.skip(b as int));
    }
    *text = r;
}

/// Delete the selection, leaving the cursor at its start. Returns whether
/// anything was selected.
pub fn delete_selection(text: &mut String, cursor: &mut usize, anchor: &mut Option<usize>) -> (r:
    bool)
    ensures
        field(final(text)@, *final(cursor), *final(anchor)) == field(
            old(text)@,
            *old(cursor),
            *old(anchor),
        ).cut(),
        r == field(old(text)@, *old(cursor), *old(anchor)).selecting(),
{
    match selection(*cursor, *anchor) {
        Some((s, e)) => {
            replace(text, s, e, "");
            proof {
                reveal_strlit("");
                assert(""@ =~= Seq::<char>::empty());
            }
            *cursor = s;
            *anchor = None;
            true
        },
        None => false,
    }
}

/// Insert a character at the cursor, replacing any selection.
pub fn insert(text: &mut String, cursor: &mut usize, anchor: &mut Option<usize>, c: char)
    requires
        *old(cursor) < usize::MAX,
    ensures
        field(final(text)@, *final(cursor), *final(anchor)) == field(
            old(text)@,
            *old(cursor),
            *old(anchor),
        ).typed(seq![c]),
{
    let _ = delete_selection(text, cursor, anchor);
    let mut s = String::new();
    s.push(c);
    assert(s@ =~= seq![c]);
    replace(text, *cursor, *cursor, s.as_str());
    *cursor = *cursor + 1;
    *anchor = None;
}

/// Insert a text at the cursor, replacing any selection.
pub fn insert_str(text: &mut String, cursor: &mut usize, anchor: &mut Option<usize>, s: &str)
    requires
        *old(cursor) + s@.len() <= usize::MAX,
    ensures
        field(final(text)@, *final(cursor), *final(anchor)) == field(
            old(text)@,
            *old(cursor),
            *old(anchor),
        ).typed(s@),
{
    let _ = delete_selection(text, cursor, anchor);
    replace(text, *cursor, *cursor, s);
    let n: usize = s.unicode_len();
    *cursor = *cursor + n;
    *anchor = None;
}

/// Delete the selection, or the character before the cursor.
pub fn backspace(text: &mut String, cursor: &mut usize, anchor: &mut Option<usize>)
    ensures
        field(final(text)@, *final(cursor), *final(anchor)) == field(
            old(text)@,
            *old(cursor),
            *old(anchor),
        ).backspaced(),
{
    if delete_selection(text, cursor, anchor) || *cursor == 0 {
        return;
    }
    let start: usize = *cursor - 1;
    proof {
        reveal_strlit("");
        assert(""@ =~= Seq::<char>::empty());
    }
    replace(text, start, *cursor, "");
    *cursor = start;
}

/// Delete the selection, or the character at the cursor.
pub fn delete_fwd(text: &mut String, cursor: &mut usize, anchor: &mut Option<usize>)
    ensures
        field(final(text)@, *final(cursor), *final(anchor)) == field(
            old(text)@,
            *old(cursor),
            *old(anchor),
        ).deleted(),
{
    if delete_selection(text, cursor, anchor) {
        return;
    }
    if *cursor >= char_len(text.as_str()) {
        return;
    }
    proof {
        reveal_strlit("");
        assert(""@ =~= Seq::<char>::empty());
    }
    replace(text, *cursor, *cursor + 1, "");
}

/// Get ready for a movement: with Shift, anchor the selection here if it is not
/// anchored yet; without, drop it.
fn pre_move(cursor: usize, anchor: &mut Option<usize>, shift: bool)
    ensures
        *final(anchor) == if !shift {
            None
        } else if *old(anchor) is Some {
            *old(anchor)
        } else {
            Some(cursor)
        },
{
    if shift {
        if anchor.is_none() {
            *anchor = Some(cursor);
        }
    } else {
        *anchor = None;
    }
}

pub fn left(text: &str, cursor: &mut usize, anchor: &mut Option<usize>, shift: bool)
    ensures
        ({
            let f = field(text@, *old(cursor), *old(anchor));
            field(text@, *final(cursor), *final(anchor)) == f.moved_to(f.left_of(), shift)
        }),
{
    pre_move(*cursor, anchor, shift);
    if *cursor > 0 {
        *cursor = *cursor - 1;
    }
}

pub fn right(text: &str, cursor: &mut usize, anchor: &mut Option<usize>, shift: bool)
    ensures
        ({
            let f = field(text@, *old(cursor), *old(anchor));
            field(text@, *final(cursor), *final(anchor)) == f.moved_to(f.right_of(), shift)
        }),
{
    pre_move(*cursor, anchor, shift);
    if *cursor < char_len(text) {
        *cursor = *cursor + 1;
    }
}

pub fn home(text: &str, cursor: &mut usize, anchor: &mut Option<usize>, shift: bool)
    ensures
        field(text@, *final(cursor), *final(anchor)) == field(
            text@,
            *old(cursor),
            *old(anchor),
        ).moved_to(0, shift),
{
    pre_move(*cursor, anchor, shift);
    *cursor = 0;
}

pub fn end(text: &str, cursor: &mut usize, anchor: &mut Option<usize>, shift: bool)
    ensures
        field(text@, *final(cursor), *final(anchor)) == field(
            text@,
            *old(cursor),
            *old(anchor),
        ).moved_to(text@.len() as int, shift),
{
    pre_move(*cursor, anchor, shift);
    *cursor = char_len(text);
}

/// Where the word at or just before `i` starts.
fn prev_word_in(chars: &Vec<char>, i: usize) -> (r: usize)
    requires
        i <= chars@.len(),
    ensures
        r == prev_word(chars@, i as int),
        r <= i,
{
    proof {
        lemma_prev_word(chars@, i as int);
    }
    let mut p: usize = i;
    while p > 0 && !is_word_char(chars[p - 1])
        invariant
            p <= i <= chars@.len(),
            back_while(chars@, i as int, separators()) == back_while(
                chars@,
                p as int,
                separators(),
            ),
        decreases p,
    {
        p = p - 1;
    }
    let ghost mid = p as int;
    while p > 0 && is_word_char(chars[p - 1])
        invariant
            p <= i <= chars@.len(),
            back_while(chars@, mid, words()) == back_while(chars@, p as int, words()),
        decreases p,
    {
        p = p - 1;
    }
    p
}

/// Where the word at or just after `i` ends.
fn next_word_in(chars: &Vec<char>, i: usize) -> (r: usize)
    requires
        i <= chars@.len(),
    ensures
        r == next_word(chars@, i as int),
{
    let mut p: usize = i;
    while p < chars.len() && !is_word_char(chars[p])
        invariant
            p <= chars@.len(),
            fwd_while(chars@, i as int, separators()) == fwd_while(
                chars@,
                p as int,
                separators(),
            ),
        decreases chars.len() - p,
    {
        p = p + 1;
    }
    let ghost mid = p as int;
    while p < chars.len() && is_word_char(chars[p])
        invariant
            p <= chars@.len(),
            fwd_while(chars@, mid, words()) == fwd_while(chars@, p as int, words()),
        decreases chars.len() - p,
    {
        p = p + 1;
    }
    p
}

pub fn word_left(text: &str, cursor: &mut usize, anchor: &mut Option<usize>, shift: bool)
    ensures
        ({
            let f = field(text@, *old(cursor), *old(anchor));
            field(text@, *final(cursor), *final(anchor)) == f.moved_to(
                prev_word(text@, f.clip(f.cursor)),
                shift,
            )
        }),
{
    pre_move(*cursor, anchor, shift);
    let chars = chars_of(text);
    *cursor = prev_word_in(&chars, clip(&chars, *cursor));
}

pub fn word_right(text: &str, cursor: &mut usize, anchor: &mut Option<usize>, shift: bool)
    ensures
        ({
            let f = field(text@, *old(cursor), *old(anchor));
            field(text@, *final(cursor), *final(anchor)) == f.moved_to(
                next_word(text@, f.clip(f.cursor)),
                shift,
            )
        }),
{
    pre_move(*cursor, anchor, shift);
    let chars = chars_of(text);
    *cursor = next_word_in(&chars, clip(&chars, *cursor));
}

/// Delete the selection, or the word to the left.
pub fn delete_word_left(text: &mut String, cursor: &mut usize, anchor: &mut Option<usize>)
    ensures
        field(final(text)@, *final(cursor), *final(anchor)) == field(
            old(text)@,
            *old(cursor),
            *old(anchor),
        ).word_deleted(),
{
    if delete_selection(text, cursor, anchor) {
        return;
    }
    let chars = chars_of(text.as_str());
    let start: usize = prev_word_in(&chars, clip(&chars, *cursor));
    if start == *cursor {
        return;
    }
    proof {
        reveal_strlit("");
        assert(""@ =~= Seq::<char>::empty());
    }
    replace(text, start, *cursor, "");
    *cursor = start;
}

/// Select the whole field.
pub fn select_all(text: &str, cursor: &mut usize, anchor: &mut Option<usize>)
    ensures
        field(text@, *final(cursor), *final(anchor)) == field(
            text@,
            *old(cursor),
            *old(anchor),
        ).all_selected(),
{
    *anchor = Some(0);
    *cursor = char_len(text);
}

/// Bring the cursor and the anchor back into range after the text was replaced.
pub fn clamp(text: &str, cursor: &mut usize, anchor: &mut Option<usize>)
    ensures
        field(text@, *final(cursor), *final(anchor)) == field(
            text@,
            *old(cursor),
            *old(anchor),
        ).clamped(),
        field(text@, *final(cursor), *final(anchor)).wf(),
{
    let n: usize = char_len(text);
    if *cursor > n {
        *cursor = n;
    }
    if let Some(a) = *anchor {
        if a > n {
            *anchor = Some(n);
        }
    }
}

/// A borrowed one-line field: the three pieces that every text box keeps.
pub struct FieldRef<'a> {
    pub text: &'a mut String,
    pub cursor: &'a mut usize,
    pub anchor: &'a mut Option<usize>,
}

/// Run one key through a one-line field: movement by word, line and character,
/// selecting with Shift, deleting, and select-all. Claims every key that it
/// knows.
pub fn handle_key(f: FieldRef<'_>, key: KeyEvent, ctrl: bool, alt: bool, shift: bool) -> (r: Edit)
    requires
        *old(f.cursor) < usize::MAX,
    ensures
        ({
            let before = field((*old(f.text))@, *old(f.cursor), *old(f.anchor));
            let after = field((*final(f.text))@, *final(f.cursor), *final(f.anchor));
            (after, r) == before.after_key(key.code, ctrl, alt, shift)
        }),
{
    let FieldRef { text, cursor, anchor } = f;
    proof {
        reveal(Field::after_key);
    }
    match key.code {
        KeyCode::Left => {
            if alt {
                word_left(text.as_str(), cursor, anchor, shift);
            } else if ctrl {
                home(text.as_str(), cursor, anchor, shift);
            } else {
                left(text.as_str(), cursor, anchor, shift);
            }
            Edit::Moved
        },
        KeyCode::Right => {
            if alt {
                word_right(text.as_str(), cursor, anchor, shift);
            } else if ctrl {
                end(text.as_str(), cursor, anchor, shift);
            } else {
                right(text.as_str(), cursor, anchor, shift);
            }
            Edit::Moved
        },
        KeyCode::Home => {
            home(text.as_str(), cursor, anchor, shift);
            Edit::Moved
        },
        KeyCode::End => {
            end(text.as_str(), cursor, anchor, shift);
            Edit::Moved
        },
        KeyCode::Backspace => {
            if alt {
                delete_word_left(text, cursor, anchor);
            } else {
                backspace(text, cursor, anchor);
            }
            Edit::Changed
        },
        KeyCode::Delete => {
            delete_fwd(text, cursor, anchor);
            Edit::Changed
        },
        KeyCode::Char(c) => {
            if ctrl && (c == 'a' || c == 'A') {
                select_all(text.as_str(), cursor, anchor);
                Edit::Moved
            } else if ctrl && (c == 'c' || c == 'C') {
                Edit::Copy
            } else if ctrl && (c == 'x' || c == 'X') {
                Edit::Cut
            } else if ctrl && (c == 'v' || c == 'V') {
                Edit::Paste
            } else if !ctrl && !alt {
                insert(text, cursor, anchor, c);
                Edit::Changed
            } else {
                Edit::Ignored
            }
        },
        _ => Edit::Ignored,
    }
}

/// A key leaves the cursor in the text, and the anchor too unless it stood at
/// the cursor. Only a key that says so changes the text or moves anything.
pub proof fn law_keys_keep_the_cursor_inside(
    f: Field,
    code: KeyCode,
    ctrl: bool,
    alt: bool,
    shift: bool,
)
    requires
        0 <= f.cursor <= f.text.len(),
        f.anchor matches Some(a) ==> a >= 0,
    ensures
        ({
            let (after, did) = f.after_key(code, ctrl, alt, shift);
            &&& 0 <= after.cursor <= after.text.len()
            &&& f.wf() && f.anchor != Some(f.cursor) ==> after.wf()
            &&& after.text != f.text ==> did == Edit::Changed
            &&& did == Edit::Moved ==> after.text == f.text
            &&& did == Edit::Ignored || did == Edit::Copy || did == Edit::Cut || did == Edit::Paste
                ==> after == f
        }),
{
    reveal(Field::after_key);
    lemma_prev_word(f.text, f.cursor);
    lemma_next_word(f.text, f.cursor);
}

/// Backspace takes back what one typed character put in.
pub proof fn law_backspace_reverts_insert(f: Field, c: char)
    requires
        f.wf(),
        !f.selecting(),
    ensures
        f.typed(seq![c]).backspaced().text == f.text,
        f.typed(seq![c]).backspaced().cursor == f.cursor,
        f.typed(seq![c]).backspaced().anchor is None,
{
    assert(f.typed(seq![c]).backspaced().text =~= f.text);
}

/// Typing over everything selected leaves just what was typed.
pub proof fn law_typing_replaces_the_selection(f: Field, ins: Seq<char>)
    ensures
        f.all_selected().typed(ins).text == ins,
        f.all_selected().typed(ins).cursor == ins.len(),
        f.all_selected().typed(ins).anchor is None,
{
    let s = f.all_selected();
    assert(s.typed(ins).text =~= ins);
}

/// A key that asks for the clipboard leaves the field to the one who answers.
pub proof fn lemma_paste_leaves_the_field(
    f: Field,
    code: KeyCode,
    ctrl: bool,
    alt: bool,
    shift: bool,
)
    ensures
        f.after_key(code, ctrl, alt, shift).1 == Edit::Paste ==> f.after_key(
            code,
            ctrl,
            alt,
            shift,
        ).0 == f,
{
    reveal(Field::after_key);
}

/// A key makes a field longer by one character at most, and so does typing by
/// what is typed.
pub proof fn lemma_length_after(
    f: Field,
    code: KeyCode,
    ctrl: bool,
    alt: bool,
    shift: bool,
    ins: Seq<char>,
)
    requires
        f.cursor >= 0,
        f.anchor matches Some(a) ==> a >= 0,
    ensures
        f.after_key(code, ctrl, alt, shift).0.text.len() <= f.text.len() + 1,
        f.typed(ins).text.len() <= f.text.len() + ins.len(),
        f.cut().text.len() <= f.text.len(),
        f.backspaced().text.len() <= f.text.len(),
{
    reveal(Field::after_key);
    lemma_prev_word(f.text, f.clip(f.cursor));
    assert(f.cut().text.len() <= f.text.len());
    assert(f.cut().cursor >= 0);
    let c = f.cut();
    assert(c.with_text(c.cursor, c.cursor, ins).text.len() == c.text.len() + ins.len());
    if let KeyCode::Char(k) = code {
        assert(c.with_text(c.cursor, c.cursor, seq![k]).text.len() == c.text.len() + 1);
    }
}

} // verus!
