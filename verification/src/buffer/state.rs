//! What a buffer is, as plain values, and what each operation makes of it.

use crate::chars::is_word;
use crate::lines::{col_of, line_len, line_of, line_start, line_text, line_total};
use vstd::prelude::*;

verus! {

/// How many undo steps to keep.
pub const UNDO_CAP: usize = 1000;

/// The kind of an edit, so that a run of typing (or of deleting) becomes one
/// undo step.
#[derive(Debug, Clone, Copy, PartialEq, Eq, Structural)]
pub enum EditKind {
    Insert,
    Delete,
}

/// The line-ending convention of the file that a buffer was loaded from.
#[derive(Debug, Clone, Copy, PartialEq, Eq, Structural)]
pub enum LineEnding {
    Lf,
    Crlf,
}

/// A file's modification time (in nanoseconds) and length in bytes.
#[derive(Debug, Clone, Copy, PartialEq, Eq, Structural)]
pub struct DiskMeta {
    pub modified: u128,
    pub len: u64,
}

/// A movement of a caret that leaves the text alone.
#[derive(Debug, Clone, Copy, PartialEq, Eq, Structural)]
pub enum Move {
    Left,
    Right,
    Up,
    Down,
    Home,
    End,
    WordLeft,
    WordRight,
    DocStart,
    DocEnd,
}

/// A caret: where it is, the fixed end of its selection, and the column that
/// vertical movement aims for.
pub struct CaretAt {
    pub cursor: int,
    pub anchor: Option<int>,
    pub goal_col: int,
}

impl CaretAt {
    /// Whether the caret selects at least one character.
    pub open spec fn selecting(self) -> bool {
        self.anchor is Some && self.anchor->0 != self.cursor
    }

    /// The start of the selection; the caret itself without one.
    pub open spec fn start(self) -> int {
        if self.selecting() && self.anchor->0 < self.cursor {
            self.anchor->0
        } else {
            self.cursor
        }
    }

    /// The end of the selection; the caret itself without one.
    pub open spec fn end(self) -> int {
        if self.selecting() && self.anchor->0 > self.cursor {
            self.anchor->0
        } else {
            self.cursor
        }
    }
}

/// What undo and redo bring back.
#[verifier::ext_equal]
pub struct SnapshotState {
    pub text: Seq<char>,
    pub cursor: int,
    pub anchor: Option<int>,
    pub carets: Seq<CaretAt>,
}

/// A caret with a mark on the primary one.
pub struct Flagged {
    pub caret: CaretAt,
    pub primary: bool,
}

/// An edit that every caret makes at its own place. A caret that selects
/// replaces its selection.
#[verifier::ext_equal]
pub enum Plan {
    /// Nothing beyond the selection.
    Cut,
    /// Put this text in.
    Type(Seq<char>),
    /// Take the character before the caret.
    Backspace,
    /// Take the character behind the caret.
    Delete,
    /// Take everything back to the start of the word.
    WordLeft,
    /// Take everything back to the start of the line.
    LineStart,
}

impl Plan {
    /// The kind of undo step that the edit makes.
    pub open spec fn kind(self) -> EditKind {
        if self is Type {
            EditKind::Insert
        } else {
            EditKind::Delete
        }
    }

    /// What the edit puts in.
    pub open spec fn ins(self) -> Seq<char> {
        match self {
            Plan::Type(t) => t,
            _ => Seq::empty(),
        }
    }
}

/// One replacement: the characters `from..to` give way to `ins`.
pub struct Splice {
    pub from: int,
    pub to: int,
    pub ins: Seq<char>,
}

/// A buffer.
#[verifier::ext_equal]
pub struct BufferState {
    pub id: u64,
    pub path: Option<Seq<char>>,
    pub text: Seq<char>,
    pub saved: Seq<char>,
    pub cursor: int,
    pub anchor: Option<int>,
    pub carets: Seq<CaretAt>,
    pub goal_col: int,
    pub scroll_row: int,
    pub modified: bool,
    pub line_ending: LineEnding,
    pub disk: Option<DiskMeta>,
    pub revision: u64,
    pub undo: Seq<SnapshotState>,
    pub redo: Seq<SnapshotState>,
    pub last_kind: Option<EditKind>,
    pub last_edit_cursor: Option<int>,
}

/// `s` with the characters `from..to` replaced by `ins`.
pub open spec fn spliced(s: Seq<char>, from: int, to: int, ins: Seq<char>) -> Seq<char> {
    s.take(from) + ins + s.skip(to)
}

/// The first position, going back from `i`, whose preceding character fails `f`.
pub open spec fn back_while(s: Seq<char>, i: int, f: spec_fn(char) -> bool) -> int
    decreases i,
{
    if i > 0 && f(s[i - 1]) {
        back_while(s, i - 1, f)
    } else {
        i
    }
}

/// The first position from `i` on whose character fails `f`, or the end.
pub open spec fn fwd_while(s: Seq<char>, i: int, f: spec_fn(char) -> bool) -> int
    decreases s.len() - i,
{
    if i < s.len() && f(s[i]) {
        fwd_while(s, i + 1, f)
    } else {
        i
    }
}

/// The characters of words.
pub open spec fn words() -> spec_fn(char) -> bool {
    |c: char| is_word(c)
}

/// The characters between words.
pub open spec fn separators() -> spec_fn(char) -> bool {
    |c: char| !is_word(c)
}

/// The characters of one class on one line.
pub open spec fn run_of(wordy: bool) -> spec_fn(char) -> bool {
    |c: char| c != '\n' && is_word(c) == wordy
}

/// Spaces.
pub open spec fn spaces() -> spec_fn(char) -> bool {
    |c: char| c == ' '
}

/// The start of the word at or before `i`: back over separators, then over the
/// word.
pub open spec fn prev_word(s: Seq<char>, i: int) -> int {
    back_while(s, back_while(s, i, separators()), words())
}

/// The end of the word at or after `i`.
pub open spec fn next_word(s: Seq<char>, i: int) -> int {
    fwd_while(s, fwd_while(s, i, separators()), words())
}

/// The lesser of two numbers.
pub open spec fn least(a: int, b: int) -> int {
    if a <= b {
        a
    } else {
        b
    }
}

/// The greater of two numbers.
pub open spec fn greatest(a: int, b: int) -> int {
    if a >= b {
        a
    } else {
        b
    }
}

/// Where a caret lands on line `l`: at its goal column, or at the line's end
/// when the line is shorter.
pub open spec fn onto_line(s: Seq<char>, c: CaretAt, l: int) -> CaretAt {
    CaretAt { cursor: line_start(s, l) + least(c.goal_col, line_len(s, l)), ..c }
}

/// A caret set down at `pos`, with its goal column taken from there.
pub open spec fn set_down(s: Seq<char>, c: CaretAt, pos: int) -> CaretAt {
    CaretAt { cursor: pos, goal_col: col_of(s, pos), ..c }
}

/// A caret moved to the end of its line.
pub open spec fn to_line_end(s: Seq<char>, c: CaretAt) -> CaretAt {
    let row = line_of(s, c.cursor);
    set_down(s, c, line_start(s, row) + line_len(s, row))
}

/// Where a movement takes a caret.
pub open spec fn moved(s: Seq<char>, c: CaretAt, m: Move) -> CaretAt {
    let row = line_of(s, c.cursor);
    match m {
        Move::Left => if c.cursor > 0 {
            set_down(s, c, c.cursor - 1)
        } else {
            c
        },
        Move::Right => if c.cursor < s.len() {
            set_down(s, c, c.cursor + 1)
        } else {
            c
        },
        Move::Up => if row == 0 {
            CaretAt { cursor: 0, goal_col: 0, ..c }
        } else {
            onto_line(s, c, row - 1)
        },
        Move::Down => if row + 1 >= line_total(s) {
            to_line_end(s, c)
        } else {
            onto_line(s, c, row + 1)
        },
        Move::Home => CaretAt { cursor: line_start(s, row), goal_col: 0, ..c },
        Move::End => to_line_end(s, c),
        Move::WordLeft => set_down(s, c, prev_word(s, c.cursor)),
        Move::WordRight => set_down(s, c, next_word(s, c.cursor)),
        Move::DocStart => CaretAt { cursor: 0, goal_col: 0, ..c },
        Move::DocEnd => set_down(s, c, s.len() as int),
    }
}

/// Order by where a caret stands.
pub open spec fn cursor_key() -> spec_fn(Flagged) -> int {
    |x: Flagged| x.caret.cursor
}

/// Order by where a caret's selection starts.
pub open spec fn start_key() -> spec_fn(Flagged) -> int {
    |x: Flagged| x.caret.start()
}

/// `list` with `x` put behind every element whose key is not greater.
pub open spec fn insert_by(
    list: Seq<Flagged>,
    x: Flagged,
    key: spec_fn(Flagged) -> int,
) -> Seq<Flagged>
    decreases list.len(),
{
    if list.len() == 0 || key(list.last()) <= key(x) {
        list.push(x)
    } else {
        insert_by(list.drop_last(), x, key).push(list.last())
    }
}

/// `list` in order of `key`; elements with equal keys stay in their order.
pub open spec fn sorted_by(list: Seq<Flagged>, key: spec_fn(Flagged) -> int) -> Seq<Flagged>
    decreases list.len(),
{
    if list.len() == 0 {
        list
    } else {
        insert_by(sorted_by(list.drop_last(), key), list.last(), key)
    }
}

/// Neighbours at one position become one caret: the first of them, primary if
/// any of them was.
pub open spec fn merged(list: Seq<Flagged>) -> Seq<Flagged>
    decreases list.len(),
{
    if list.len() == 0 {
        list
    } else {
        let front = merged(list.drop_last());
        let x = list.last();
        if front.len() > 0 && front.last().caret.cursor == x.caret.cursor {
            front.drop_last().push(
                Flagged {
                    caret: front.last().caret,
                    primary: front.last().primary || x.primary,
                },
            )
        } else {
            front.push(x)
        }
    }
}

/// The index of the first primary caret at or after `i`, or 0 when there is none.
pub open spec fn primary_from(list: Seq<Flagged>, i: int) -> int
    decreases list.len() - i,
{
    if i >= list.len() {
        0
    } else if list[i].primary {
        i
    } else {
        primary_from(list, i + 1)
    }
}

/// The carets without their marks.
pub open spec fn unflagged(list: Seq<Flagged>) -> Seq<CaretAt> {
    Seq::new(list.len(), |i: int| list[i].caret)
}

/// Carets at strictly increasing positions.
pub open spec fn strictly_placed(carets: Seq<CaretAt>) -> bool {
    forall|i: int, j: int| 0 <= i < j < carets.len() ==> carets[i].cursor < carets[j].cursor
}

/// A caret that selects does so inside the text.
pub open spec fn selects_within(c: CaretAt, len: int) -> bool {
    c.selecting() ==> 0 <= c.anchor->0 <= len
}

/// The carets lie in the text in increasing order, none at `cursor`.
pub open spec fn carets_wf(carets: Seq<CaretAt>, cursor: int, len: int) -> bool {
    &&& strictly_placed(carets)
    &&& forall|i: int|
        0 <= i < carets.len() ==> 0 <= (#[trigger] carets[i]).cursor <= len && carets[i].cursor
            != cursor
}

impl SnapshotState {
    pub open spec fn wf(self) -> bool {
        &&& 0 <= self.cursor <= self.text.len()
        &&& carets_wf(self.carets, self.cursor, self.text.len() as int)
    }
}

/// What the edit `p` replaces at the caret `c`.
pub open spec fn plan_at(s: Seq<char>, p: Plan, c: CaretAt) -> Option<Splice> {
    if c.selecting() {
        Some(Splice { from: c.start(), to: c.end(), ins: p.ins() })
    } else {
        match p {
            Plan::Cut => None,
            Plan::Type(t) => Some(Splice { from: c.cursor, to: c.cursor, ins: t }),
            Plan::Backspace => back_to(c, greatest(c.cursor - 1, 0)),
            Plan::Delete => if c.cursor < s.len() {
                Some(Splice { from: c.cursor, to: c.cursor + 1, ins: Seq::empty() })
            } else {
                None
            },
            Plan::WordLeft => back_to(c, prev_word(s, c.cursor)),
            Plan::LineStart => back_to(c, line_start(s, line_of(s, c.cursor))),
        }
    }
}

/// The characters from `pos` to the caret taken out, if there are any.
pub open spec fn back_to(c: CaretAt, pos: int) -> Option<Splice> {
    if pos < c.cursor {
        Some(Splice { from: pos, to: c.cursor, ins: Seq::empty() })
    } else {
        None
    }
}

/// How the splices of one many-caret edit work out, taken left to right: the
/// new text so far, how far the old text is used up, and where each caret ends
/// up. A splice never reaches back into text that an earlier one replaced.
#[verifier::ext_equal]
pub struct Spliced {
    pub out: Seq<char>,
    pub done: int,
    pub carets: Seq<Flagged>,
}

/// A caret at `pos` without a selection.
pub open spec fn bare_caret(pos: int) -> CaretAt {
    CaretAt { cursor: pos, anchor: None, goal_col: 0 }
}

/// The splices `plans` applied to `s` at the carets `list`.
pub open spec fn splice_all(
    s: Seq<char>,
    list: Seq<Flagged>,
    plans: Seq<Option<Splice>>,
) -> Spliced
    decreases list.len(),
{
    if list.len() == 0 {
        Spliced { out: Seq::empty(), done: 0, carets: Seq::empty() }
    } else {
        let before = splice_all(s, list.drop_last(), plans.drop_last());
        let x = list.last();
        match plans.last() {
            Some(p) => {
                let from = greatest(p.from, before.done);
                let to = greatest(p.to, from);
                let out = before.out + s.subrange(before.done, from) + p.ins;
                Spliced {
                    out,
                    done: to,
                    carets: before.carets.push(
                        Flagged { caret: bare_caret(out.len() as int), primary: x.primary },
                    ),
                }
            },
            None => {
                let pos = before.out.len() + greatest(x.caret.cursor, before.done) - before.done;
                Spliced {
                    carets: before.carets.push(
                        Flagged { caret: bare_caret(pos), primary: x.primary },
                    ),
                    ..before
                }
            },
        }
    }
}

/// Every caret with its goal column taken from where it stands.
pub open spec fn with_goals(s: Seq<char>, list: Seq<Flagged>) -> Seq<Flagged> {
    Seq::new(
        list.len(),
        |i: int|
            Flagged {
                caret: set_down(s, list[i].caret, list[i].caret.cursor),
                primary: list[i].primary,
            },
    )
}

/// Carets that select something.
pub open spec fn has_selection() -> spec_fn(Flagged) -> bool {
    |x: Flagged| x.caret.selecting()
}

/// The carets of `list` that select something.
pub open spec fn selections_of(list: Seq<Flagged>) -> Seq<Flagged> {
    list.filter(has_selection())
}

/// The selected texts of `list`, joined by line feeds.
pub open spec fn joined(s: Seq<char>, list: Seq<Flagged>) -> Seq<char>
    decreases list.len(),
{
    if list.len() == 0 {
        Seq::empty()
    } else {
        let own = s.subrange(list.last().caret.start(), list.last().caret.end());
        if list.len() == 1 {
            own
        } else {
            joined(s, list.drop_last()).push('\n') + own
        }
    }
}

/// Whether `nee` occurs in `hay` at position `p`.
pub open spec fn occurs_at(hay: Seq<char>, nee: Seq<char>, p: int) -> bool {
    0 <= p && p + nee.len() <= hay.len() && hay.subrange(p, p + nee.len()) == nee
}

/// The position reached `off` steps after `from` in a text of `n` characters
/// that starts over at its end.
pub open spec fn wrapped(from: int, off: int, n: int) -> int {
    if from + off < n {
        from + off
    } else {
        from + off - n
    }
}

/// The first place, going on from `off` steps after `from` and starting over at
/// the end, where `nee` occurs and that is not in `taken`.
pub open spec fn next_free(
    hay: Seq<char>,
    nee: Seq<char>,
    from: int,
    taken: Seq<int>,
    off: int,
) -> Option<int>
    decreases hay.len() - off,
{
    let p = wrapped(from, off, hay.len() as int);
    if off >= hay.len() {
        None
    } else if occurs_at(hay, nee, p) && !taken.contains(p) {
        Some(p)
    } else {
        next_free(hay, nee, from, taken, off + 1)
    }
}

/// The furthest caret of the list.
pub open spec fn furthest(list: Seq<Flagged>) -> CaretAt
    decreases list.len(),
{
    if list.len() <= 1 {
        list[0].caret
    } else {
        let c = furthest(list.drop_last());
        if list.last().caret.cursor >= c.cursor {
            list.last().caret
        } else {
            c
        }
    }
}

/// The nearest caret of the list.
pub open spec fn nearest(list: Seq<Flagged>) -> CaretAt
    decreases list.len(),
{
    if list.len() <= 1 {
        list[0].caret
    } else {
        let c = nearest(list.drop_last());
        if list.last().caret.cursor < c.cursor {
            list.last().caret
        } else {
            c
        }
    }
}

/// Where the last of the selections ends.
pub open spec fn reach(list: Seq<Flagged>) -> int
    decreases list.len(),
{
    if list.len() == 0 {
        0
    } else {
        greatest(reach(list.drop_last()), list.last().caret.end())
    }
}

/// Where the selections start.
pub open spec fn starts(list: Seq<Flagged>) -> Seq<int> {
    Seq::new(list.len(), |i: int| list[i].caret.start())
}

/// The spaces that one level of indentation adds.
pub open spec fn pad() -> Seq<char> {
    seq![' ', ' ', ' ', ' ']
}

/// How many leading characters outdenting takes from a line: up to four
/// spaces, or one tab.
pub open spec fn dedent_len(line: Seq<char>) -> int {
    if line.len() > 0 && line[0] == '\t' {
        1
    } else {
        least(4, fwd_while(line, 0, spaces()))
    }
}

/// The lines `from..to` of `s`, each as `f` rewrites it.
pub open spec fn rewritten(
    s: Seq<char>,
    f: spec_fn(int, Seq<char>) -> Seq<char>,
    from: int,
    to: int,
) -> Seq<char>
    decreases to - from,
{
    if from >= to {
        Seq::empty()
    } else {
        rewritten(s, f, from, to - 1) + f(to - 1, line_text(s, to - 1))
    }
}

/// Puts four spaces in front of the lines from `first` to `last`.
pub open spec fn indenting(first: int, last: int) -> spec_fn(int, Seq<char>) -> Seq<char> {
    |l: int, line: Seq<char>|
        if first <= l <= last {
            pad() + line
        } else {
            line
        }
}

/// Takes one level of indentation from the lines from `first` to `last`.
pub open spec fn outdenting(first: int, last: int) -> spec_fn(int, Seq<char>) -> Seq<char> {
    |l: int, line: Seq<char>|
        if first <= l <= last {
            line.skip(dedent_len(line))
        } else {
            line
        }
}

/// The whole text with the lines `first..=last` indented.
pub open spec fn indented_text(s: Seq<char>, first: int, last: int) -> Seq<char> {
    rewritten(s, indenting(first, last), 0, line_total(s))
}

/// The whole text with the lines `first..=last` outdented.
pub open spec fn outdented_text(s: Seq<char>, first: int, last: int) -> Seq<char> {
    rewritten(s, outdenting(first, last), 0, line_total(s))
}

impl BufferState {
    /// The primary caret.
    pub open spec fn primary(self) -> CaretAt {
        CaretAt { cursor: self.cursor, anchor: self.anchor, goal_col: self.goal_col }
    }

    /// The buffer with `c` as its primary caret.
    pub open spec fn with_primary(self, c: CaretAt) -> BufferState {
        BufferState { cursor: c.cursor, anchor: c.anchor, goal_col: c.goal_col, ..self }
    }

    /// All carets, the primary one first.
    pub open spec fn flagged(self) -> Seq<Flagged> {
        seq![Flagged { caret: self.primary(), primary: true }] + Seq::new(
            self.carets.len(),
            |i: int| Flagged { caret: self.carets[i], primary: false },
        )
    }

    /// All carets in order of where their selections start.
    pub open spec fn by_start(self) -> Seq<Flagged> {
        sorted_by(self.flagged(), start_key())
    }

    /// The carets lie in the text, in order and at different places, and the
    /// history is within its bound.
    pub open spec fn wf(self) -> bool {
        &&& 0 <= self.cursor <= self.text.len()
        &&& carets_wf(self.carets, self.cursor, self.text.len() as int)
        &&& self.undo.len() + self.redo.len() <= UNDO_CAP
        &&& forall|i: int| 0 <= i < self.undo.len() ==> (#[trigger] self.undo[i]).wf()
        &&& forall|i: int| 0 <= i < self.redo.len() ==> (#[trigger] self.redo[i]).wf()
    }

    /// The primary selection lies in the text.
    pub open spec fn selection_ok(self) -> bool {
        selects_within(self.primary(), self.text.len() as int)
    }

    /// Every selection lies in the text.
    pub open spec fn selections_ok(self) -> bool {
        &&& self.selection_ok()
        &&& forall|i: int|
            0 <= i < self.carets.len() ==> selects_within(
                #[trigger] self.carets[i],
                self.text.len() as int,
            )
    }

    /// What undo would bring back.
    pub open spec fn snapshot(self) -> SnapshotState {
        SnapshotState {
            text: self.text,
            cursor: self.cursor,
            anchor: self.anchor,
            carets: self.carets,
        }
    }

    /// Whether an edit of this kind joins the last undo step.
    pub open spec fn coalesces(self, kind: EditKind) -> bool {
        self.undo.len() > 0 && self.last_kind == Some(kind) && self.last_edit_cursor == Some(
            self.cursor,
        )
    }

    /// The buffer ready for an edit: the state is kept for undo (unless the
    /// edit joins the last step; the oldest step goes when there are too many)
    /// and there is nothing left to redo.
    pub open spec fn checkpointed(self, kind: EditKind) -> BufferState {
        let grown = self.undo.push(self.snapshot());
        BufferState {
            undo: if self.coalesces(kind) {
                self.undo
            } else if grown.len() > UNDO_CAP {
                grown.skip(1)
            } else {
                grown
            },
            redo: Seq::empty(),
            ..self
        }
    }

    /// The buffer after an edit, which the next one may join.
    pub open spec fn noted(self, kind: EditKind) -> BufferState {
        BufferState { last_kind: Some(kind), last_edit_cursor: Some(self.cursor), ..self }
    }

    /// The buffer with one more change counted and its dirtiness made true: it
    /// is modified exactly when its text differs from the saved one.
    pub open spec fn bumped(self) -> BufferState {
        BufferState {
            revision: next_revision(self.revision),
            modified: self.text != self.saved,
            ..self
        }
    }

    /// The buffer with the characters `from..to` replaced and the caret, its
    /// selection gone if there was one, at the end of what was put in.
    pub open spec fn replaced(self, from: int, to: int, ins: Seq<char>) -> BufferState {
        let text = spliced(self.text, from, to, ins);
        BufferState {
            text,
            cursor: from + ins.len(),
            goal_col: col_of(text, from + ins.len()),
            ..self
        }
    }

    /// Without its primary selection: the selected text and the selection are
    /// gone, and the change is counted.
    pub open spec fn selection_deleted(self) -> BufferState {
        if self.primary().selecting() {
            BufferState {
                anchor: None,
                ..self.replaced(self.primary().start(), self.primary().end(), Seq::empty())
            }.bumped()
        } else {
            self
        }
    }

    /// `selection_deleted` as an undo step of its own.
    pub open spec fn selection_cut(self) -> BufferState {
        self.checkpointed(EditKind::Delete).selection_deleted().noted(EditKind::Delete)
    }

    /// The text `ins` typed at the one caret, over its selection.
    pub open spec fn typed(self, ins: Seq<char>) -> BufferState {
        let st = self.checkpointed(EditKind::Insert).selection_deleted();
        st.replaced(st.cursor, st.cursor, ins).noted(EditKind::Insert).bumped()
    }

    /// The characters `from..cursor` deleted as an undo step.
    pub open spec fn deleted_back_to(self, from: int) -> BufferState {
        self.checkpointed(EditKind::Delete).replaced(from, self.cursor, Seq::empty()).noted(
            EditKind::Delete,
        ).bumped()
    }

    /// The character behind the caret deleted as an undo step; the caret and its
    /// goal column stay.
    pub open spec fn deleted_forward(self) -> BufferState {
        BufferState {
            text: spliced(self.text, self.cursor, self.cursor + 1, Seq::empty()),
            ..self.checkpointed(EditKind::Delete)
        }.noted(EditKind::Delete).bumped()
    }

    /// The carets of `list` in their places: sorted, merged, the primary one
    /// apart.
    pub open spec fn installed(self, list: Seq<Flagged>) -> BufferState {
        let m = merged(sorted_by(list, cursor_key()));
        let p = primary_from(m, 0);
        BufferState { carets: unflagged(m.remove(p)), ..self.with_primary(m[p].caret) }
    }

    /// Every caret moved; those that meet become one.
    pub open spec fn each_moved(self, m: Move) -> BufferState {
        if self.carets.len() == 0 {
            self.with_primary(moved(self.text, self.primary(), m))
        } else {
            let all = self.flagged();
            self.installed(
                Seq::new(
                    all.len(),
                    |i: int|
                        Flagged {
                            caret: moved(self.text, all[i].caret, m),
                            primary: all[i].primary,
                        },
                ),
            )
        }
    }

    /// What the edit `p` replaces at each caret, in order of where they start.
    pub open spec fn plans(self, p: Plan) -> Seq<Option<Splice>> {
        Seq::new(self.by_start().len(), |i: int| plan_at(self.text, p, self.by_start()[i].caret))
    }

    /// Whether any caret has something to edit.
    pub open spec fn edits(self, p: Plan) -> bool {
        exists|i: int| 0 <= i < self.plans(p).len() && (#[trigger] self.plans(p)[i]) is Some
    }

    /// An edit at every caret, as one undo step. Nothing happens when no caret
    /// has anything to edit.
    pub open spec fn multi_edited(self, p: Plan) -> BufferState {
        if self.edits(p) {
            let r = splice_all(self.text, self.by_start(), self.plans(p));
            let text = r.out + self.text.skip(r.done);
            BufferState { text, ..self.checkpointed(p.kind()) }.installed(
                with_goals(text, r.carets),
            ).noted(p.kind()).bumped()
        } else {
            self
        }
    }

    /// A new primary caret; the old one joins the others, and a caret where the
    /// new one stands goes.
    pub open spec fn promoted(self, anchor: Option<int>, cursor: int, goal: int) -> BufferState {
        BufferState {
            cursor,
            anchor,
            goal_col: goal,
            carets: without(placed(self.carets, self.primary()), cursor),
            ..self
        }
    }

    /// A caret added on line `l`, in the column that `c` is in or aims for.
    pub open spec fn caret_added_on(self, c: CaretAt, l: int) -> BufferState {
        let col = greatest(c.goal_col, col_of(self.text, c.cursor));
        self.promoted(None, line_start(self.text, l) + least(col, line_len(self.text, l)), col)
    }

    /// The word, or the run between words, at `i` selected. Never crosses a
    /// line feed.
    pub open spec fn word_selected(self, i: int) -> BufferState {
        let run = run_of(is_word(self.text[i]));
        self.selected(back_while(self.text, i, run), fwd_while(self.text, i, run))
    }

    /// Whether selecting the next occurrence does anything.
    pub open spec fn has_next_occurrence(self) -> bool {
        if self.carets.len() == 0 && !self.primary().selecting() {
            self.text.len() > 0 && is_word(self.text[least(self.cursor, self.text.len() - 1)])
        } else {
            self.primary().selecting() && self.next_occurrence() is Some
        }
    }

    /// The next place of the selected text, from the last selection on and
    /// starting over at the end, that no caret's selection starts at.
    pub open spec fn next_occurrence(self) -> Option<int> {
        next_free(
            self.text,
            self.primary_text()->0,
            reach(self.flagged()),
            starts(self.flagged()),
            0,
        )
    }

    /// The next occurrence of the selection selected by a new caret, or, with
    /// nothing selected, the word at the caret selected.
    pub open spec fn next_occurrence_added(self) -> BufferState {
        if !self.has_next_occurrence() {
            self
        } else if self.carets.len() == 0 && !self.primary().selecting() {
            self.word_selected(least(self.cursor, self.text.len() - 1))
        } else {
            let p = self.next_occurrence()->0;
            let end = p + self.primary_text()->0.len();
            self.promoted(Some(p), end, col_of(self.text, end))
        }
    }

    /// The primary selection, or the bare cursor, as lines: from the first to
    /// the last that it touches, but not one that it only reaches the start of.
    pub open spec fn touched_lines(self) -> (int, int) {
        let first = line_of(self.text, self.primary().start());
        let last = line_of(self.text, self.primary().end());
        (
            first,
            if self.primary().selecting() && last > first && self.primary().end() == line_start(
                self.text,
                last,
            ) {
                last - 1
            } else {
                last
            },
        )
    }

    /// The lines `first..=last` selected, the caret at the end of the last.
    pub open spec fn lines_selected(self, first: int, last: int) -> BufferState {
        let c = line_start(self.text, last) + line_len(self.text, last);
        BufferState {
            anchor: Some(line_start(self.text, first)),
            cursor: c,
            goal_col: col_of(self.text, c),
            ..self
        }
    }

    /// The touched lines indented.
    pub open spec fn block_indented(self) -> BufferState {
        let st = BufferState { carets: Seq::empty(), ..self };
        let (first, last) = self.touched_lines();
        let text = indented_text(self.text, first, last);
        let put = BufferState { text, ..st.checkpointed(EditKind::Insert) };
        (if self.primary().selecting() {
            put.lines_selected(first, last)
        } else {
            BufferState {
                cursor: self.cursor + 4,
                goal_col: col_of(text, self.cursor + 4),
                ..put
            }
        }).noted(EditKind::Insert).bumped()
    }

    /// How many characters outdenting takes from line `l`.
    pub open spec fn dedent_of(self, l: int) -> int {
        dedent_len(line_text(self.text, l))
    }

    /// The touched lines outdented; nothing but the extra carets goes when no
    /// line has anything to give.
    pub open spec fn block_outdented(self) -> BufferState {
        let st = BufferState { carets: Seq::empty(), ..self };
        let (first, last) = self.touched_lines();
        let text = outdented_text(self.text, first, last);
        let row = line_of(self.text, self.cursor);
        let col = col_of(self.text, self.cursor);
        if forall|l: int| first <= l <= last ==> #[trigger] self.dedent_of(l) == 0 {
            st
        } else {
            let put = BufferState { text, ..st.checkpointed(EditKind::Delete) };
            (if self.primary().selecting() {
                put.lines_selected(first, last)
            } else {
                let c = line_start(text, row) + greatest(0, col - self.dedent_of(row));
                BufferState { cursor: c, goal_col: col_of(text, c), ..put }
            }).noted(EditKind::Delete).bumped()
        }
    }

    /// Outdenting a selected block leaves enough lines to select it again. Only
    /// where a line feed comes to follow a lone carriage return do lines merge.
    pub open spec fn outdent_keeps_lines(self) -> bool {
        let (first, last) = self.touched_lines();
        self.primary().selecting() ==> last <= line_total(outdented_text(self.text, first, last))
    }

    /// Brought back to `s`.
    pub open spec fn restored(self, s: SnapshotState) -> BufferState {
        let cursor = least(s.cursor, s.text.len() as int);
        BufferState {
            text: s.text,
            cursor,
            anchor: s.anchor,
            carets: s.carets,
            goal_col: col_of(s.text, cursor),
            last_kind: None,
            last_edit_cursor: None,
            ..self
        }.bumped()
    }

    /// One step back in the history.
    pub open spec fn undone(self) -> BufferState {
        if self.undo.len() > 0 {
            BufferState {
                undo: self.undo.drop_last(),
                redo: self.redo.push(self.snapshot()),
                ..self.restored(self.undo.last())
            }
        } else {
            self
        }
    }

    /// One step forward again.
    pub open spec fn redone(self) -> BufferState {
        if self.redo.len() > 0 {
            BufferState {
                redo: self.redo.drop_last(),
                undo: self.undo.push(self.snapshot()),
                ..self.restored(self.redo.last())
            }
        } else {
            self
        }
    }

    /// The same file, carets and history aside: nothing selected any more.
    pub open spec fn deselected(self) -> BufferState {
        BufferState {
            anchor: None,
            carets: Seq::new(
                self.carets.len(),
                |i: int| CaretAt { anchor: None, ..self.carets[i] },
            ),
            ..self
        }
    }

    /// Every caret that has no anchor gets one where it stands.
    pub open spec fn anchored(self) -> BufferState {
        BufferState {
            anchor: anchor_or_here(self.primary()),
            carets: Seq::new(
                self.carets.len(),
                |i: int| CaretAt { anchor: anchor_or_here(self.carets[i]), ..self.carets[i] },
            ),
            ..self
        }
    }

    /// Only the primary caret, over the characters from `anchor` to `cursor`.
    pub open spec fn selected(self, anchor: int, cursor: int) -> BufferState {
        BufferState {
            carets: Seq::empty(),
            anchor: Some(anchor),
            cursor,
            goal_col: col_of(self.text, cursor),
            ..self
        }
    }

    /// The selected text: that of the one caret, or those of all carets joined
    /// by line feeds from top to bottom.
    pub open spec fn selection_text(self) -> Option<Seq<char>> {
        if self.carets.len() == 0 {
            self.primary_text()
        } else {
            let list = sorted_by(selections_of(self.flagged()), start_key());
            if list.len() == 0 {
                None
            } else {
                Some(joined(self.text, list))
            }
        }
    }

    /// The primary caret's selected text.
    pub open spec fn primary_text(self) -> Option<Seq<char>> {
        if self.primary().selecting() {
            Some(self.text.subrange(self.primary().start(), self.primary().end()))
        } else {
            None
        }
    }
}

/// The anchor of `c`, or its position where it has none.
pub open spec fn anchor_or_here(c: CaretAt) -> Option<int> {
    if c.anchor is Some {
        c.anchor
    } else {
        Some(c.cursor)
    }
}

/// Revisions count up and start over.
pub open spec fn next_revision(r: u64) -> u64 {
    if r == u64::MAX {
        0
    } else {
        (r + 1) as u64
    }
}

/// `carets` with `c` in its place: behind every caret that is not further on.
pub open spec fn placed(carets: Seq<CaretAt>, c: CaretAt) -> Seq<CaretAt>
    decreases carets.len(),
{
    if carets.len() == 0 || carets.last().cursor <= c.cursor {
        carets.push(c)
    } else {
        placed(carets.drop_last(), c).push(carets.last())
    }
}

/// The carets that are not at `pos`.
pub open spec fn away_from(pos: int) -> spec_fn(CaretAt) -> bool {
    |c: CaretAt| c.cursor != pos
}

/// `carets` without those at `pos`.
pub open spec fn without(carets: Seq<CaretAt>, pos: int) -> Seq<CaretAt> {
    carets.filter(away_from(pos))
}

} // verus!
