//! Text buffer backed by a rope.
//!
//! The cursor is a single character index into the rope, which keeps editing
//! simple; rows and columns are derived on demand. A `revision` counter lets
//! other parts cache what they compute from the text.

use crate::buffer::carets::carets_view;
use crate::buffer::state::{
    least, BufferState, CaretAt, DiskMeta, EditKind, LineEnding, SnapshotState, UNDO_CAP,
};
use crate::lines::{
    col_of, lemma_line_around, lemma_line_starts_increase, line_len, line_of, line_total,
};
use crate::paths::{display_name, shown_name};
use crate::rope::{
    rope_char_to_line, rope_clone, rope_from_str, rope_len_chars, rope_len_lines, rope_line,
    rope_line_to_char, rope_new, rope_same, rope_text,
};
use crate::strings::chars_of;
use ropey::Rope;
use vstd::prelude::*;

pub mod blocklaws;
pub mod blocks;
pub mod carets;
pub mod changes;
pub mod editlaws;
pub mod edits;
pub mod historylaws;
pub mod keyed;
pub mod laws;
pub mod movelaws;
pub mod moves;
pub mod pointing;
pub mod pointlaws;
pub mod selecting;
pub mod selectlaws;
pub mod state;

verus! {

/// A position, or none, as a number.
pub open spec fn opt_int(o: Option<usize>) -> Option<int> {
    match o {
        Some(v) => Some(v as int),
        None => None,
    }
}

/// One caret in the buffer. The buffer always has a primary caret; editing at
/// many places adds secondary ones, each with its own selection.
#[derive(Debug, Clone, Copy, PartialEq, Eq, Structural)]
pub struct Caret {
    pub cursor: usize,
    pub anchor: Option<usize>,
    pub goal_col: usize,
}

impl View for Caret {
    type V = CaretAt;

    open spec fn view(&self) -> CaretAt {
        CaretAt {
            cursor: self.cursor as int,
            anchor: opt_int(self.anchor),
            goal_col: self.goal_col as int,
        }
    }
}

impl Caret {
    /// The caret's selection as `(start, end)`, an empty `(pos, pos)` when there
    /// is no selection.
    pub fn bounds(&self) -> (r: (usize, usize))
        ensures
            r.0 == self@.start(),
            r.1 == self@.end(),
    {
        match self.anchor {
            Some(a) => if a < self.cursor {
                (a, self.cursor)
            } else {
                (self.cursor, a)
            },
            None => (self.cursor, self.cursor),
        }
    }

    /// Where the selection starts.
    pub fn lower(&self) -> (r: usize)
        ensures
            r == self@.start(),
    {
        self.bounds().0
    }
}

/// Whether some line feed of `s` follows a carriage return.
pub open spec fn has_crlf(s: Seq<char>) -> bool {
    exists|i: int| 0 <= i < s.len() - 1 && #[trigger] s[i] == '\r' && s[i + 1] == '\n'
}

impl LineEnding {
    /// The convention of `text`: CRLF as soon as it occurs once.
    pub fn detect(text: &str) -> (r: LineEnding)
        ensures
            r == if has_crlf(text@) {
                LineEnding::Crlf
            } else {
                LineEnding::Lf
            },
    {
        let v = chars_of(text);
        let mut i: usize = 1;
        while i < v.len()
            invariant
                v@ == text@,
                1 <= i,
                forall|k: int|
                    0 <= k < i - 1 && k < v@.len() - 1 ==> !(#[trigger] v@[k] == '\r' && v@[k + 1]
                        == '\n'),
            decreases v.len() - i,
        {
            if v[i - 1] == '\r' && v[i] == '\n' {
                assert(text@[i - 1] == '\r' && text@[i - 1 + 1] == '\n');
                return LineEnding::Crlf;
            }
            i = i + 1;
        }
        LineEnding::Lf
    }

    /// How the convention is shown.
    pub fn label(self) -> (r: &'static str)
        ensures
            r@ == match self {
                LineEnding::Lf => "LF"@,
                LineEnding::Crlf => "CRLF"@,
            },
    {
        match self {
            LineEnding::Lf => "LF",
            LineEnding::Crlf => "CRLF",
        }
    }
}

/// How the file on disk compares to what a buffer last loaded or saved.
#[derive(Debug, Clone, Copy, PartialEq, Eq, Structural)]
pub enum DiskStatus {
    /// Same as last read or written, or there is nothing to compare against.
    Unchanged,
    /// The file changed underneath.
    Modified,
    /// The file is gone.
    Deleted,
}

/// A copy of the editable state for undo and redo. Cloning a rope is cheap.
#[derive(Debug)]
pub struct Snapshot {
    pub rope: Rope,
    pub cursor: usize,
    pub anchor: Option<usize>,
    pub carets: Vec<Caret>,
}

impl View for Snapshot {
    type V = SnapshotState;

    open spec fn view(&self) -> SnapshotState {
        SnapshotState {
            text: rope_text(self.rope),
            cursor: self.cursor as int,
            anchor: opt_int(self.anchor),
            carets: carets_view(self.carets@),
        }
    }
}

/// A list of snapshots as plain values.
pub open spec fn snapshots_view(v: Seq<Snapshot>) -> Seq<SnapshotState> {
    Seq::new(v.len(), |i: int| v[i]@)
}

/// A text, or none, as its characters.
pub open spec fn opt_text(o: Option<String>) -> Option<Seq<char>> {
    match o {
        Some(s) => Some(s@),
        None => None,
    }
}

/// An open text with its carets and its history.
#[derive(Debug)]
pub struct Buffer {
    /// Stable id (assigned by the app), so that caches survive tab reordering.
    pub id: u64,
    /// The file, if there is one.
    pub path: Option<String>,
    pub rope: Rope,
    /// The content as last saved to, or loaded from, disk.
    pub saved: Rope,
    /// Cursor position as a character index into the rope.
    pub cursor: usize,
    /// Selection anchor: the fixed end of a selection; the live end is `cursor`.
    pub anchor: Option<usize>,
    /// Secondary carets, sorted by `cursor` and free of duplicates.
    pub carets: Vec<Caret>,
    /// Preferred column for vertical movement.
    pub goal_col: usize,
    /// First visible row.
    pub scroll_row: usize,
    /// Whether there are unsaved edits.
    pub modified: bool,
    pub line_ending: LineEnding,
    /// The file's metadata as of the last load or save, if it is tracked.
    pub disk: Option<DiskMeta>,
    pub revision: u64,
    /// Undo history (newest last) and the redo stack.
    pub undo: Vec<Snapshot>,
    pub redo: Vec<Snapshot>,
    /// Kind and resulting cursor of the last edit, for coalescing.
    pub last_kind: Option<EditKind>,
    pub last_edit_cursor: Option<usize>,
}

impl View for Buffer {
    type V = BufferState;

    open spec fn view(&self) -> BufferState {
        BufferState {
            id: self.id,
            path: opt_text(self.path),
            text: rope_text(self.rope),
            saved: rope_text(self.saved),
            cursor: self.cursor as int,
            anchor: opt_int(self.anchor),
            carets: carets_view(self.carets@),
            goal_col: self.goal_col as int,
            scroll_row: self.scroll_row as int,
            modified: self.modified,
            line_ending: self.line_ending,
            disk: self.disk,
            revision: self.revision,
            undo: snapshots_view(self.undo@),
            redo: snapshots_view(self.redo@),
            last_kind: self.last_kind,
            last_edit_cursor: opt_int(self.last_edit_cursor),
        }
    }
}

/// A buffer that was just loaded with `text`.
pub open spec fn fresh(
    path: Option<Seq<char>>,
    text: Seq<char>,
    disk: Option<DiskMeta>,
) -> BufferState {
    BufferState {
        id: 0,
        path,
        text,
        saved: text,
        cursor: 0,
        anchor: None,
        carets: Seq::empty(),
        goal_col: 0,
        scroll_row: 0,
        modified: false,
        line_ending: if has_crlf(text) {
            LineEnding::Crlf
        } else {
            LineEnding::Lf
        },
        disk,
        revision: 0,
        undo: Seq::empty(),
        redo: Seq::empty(),
        last_kind: None,
        last_edit_cursor: None,
    }
}

/// A copy of the list.
pub(crate) fn copy_carets(v: &Vec<Caret>) -> (r: Vec<Caret>)
    ensures
        r@ == v@,
{
    let mut r: Vec<Caret> = Vec::new();
    let mut i: usize = 0;
    while i < v.len()
        invariant
            i <= v.len(),
            r@ == v@.take(i as int),
        decreases v.len() - i,
    {
        r.push(v[i]);
        i = i + 1;
        assert(v@.take(i as int) =~= v@.take(i - 1).push(v@[i - 1]));
    }
    assert(v@.take(i as int) =~= v@);
    r
}

impl Buffer {
    /// A new, empty buffer without a file.
    pub fn empty() -> (b: Buffer)
        ensures
            b@ == fresh(None, Seq::empty(), None),
            b@.wf(),
    {
        let b = Buffer {
            id: 0,
            path: None,
            rope: rope_new(),
            saved: rope_new(),
            cursor: 0,
            anchor: None,
            carets: Vec::new(),
            goal_col: 0,
            scroll_row: 0,
            modified: false,
            line_ending: LineEnding::Lf,
            disk: None,
            revision: 0,
            undo: Vec::new(),
            redo: Vec::new(),
            last_kind: None,
            last_edit_cursor: None,
        };
        assert(b@ =~= fresh(None, Seq::empty(), None));
        b
    }

    /// The buffer of the file `path` that holds `text`.
    pub fn from_text(path: String, text: &str, disk: Option<DiskMeta>) -> (b: Buffer)
        ensures
            b@ == fresh(Some(path@), text@, disk),
            b@.wf(),
    {
        let line_ending = LineEnding::detect(text);
        let rope = rope_from_str(text);
        let ghost p = path@;
        let b = Buffer {
            id: 0,
            path: Some(path),
            saved: rope_clone(&rope),
            rope,
            cursor: 0,
            anchor: None,
            carets: Vec::new(),
            goal_col: 0,
            scroll_row: 0,
            modified: false,
            line_ending,
            disk,
            revision: 0,
            undo: Vec::new(),
            redo: Vec::new(),
            last_kind: None,
            last_edit_cursor: None,
        };
        assert(b@ =~= fresh(Some(p), text@, disk));
        b
    }

    /// How often the text has changed.
    pub fn revision(&self) -> (r: u64)
        ensures
            r == self@.revision,
    {
        self.revision
    }

    /// The file name shown on the tab.
    pub fn name(&self) -> (r: String)
        ensures
            r@ == match self@.path {
                Some(p) => display_name(p),
                None => "[new]"@,
            },
    {
        match &self.path {
            Some(p) => shown_name(p.as_str()),
            None => "[new]".to_owned(),
        }
    }

    /// Take note that the text was written to the file: it is the saved text
    /// now, and `disk` is the file's new metadata.
    pub fn mark_saved(&mut self, disk: Option<DiskMeta>)
        ensures
            final(self)@ == (BufferState {
                saved: old(self)@.text,
                modified: false,
                disk,
                ..old(self)@
            }),
    {
        self.saved = rope_clone(&self.rope);
        self.modified = false;
        self.disk = disk;
    }

    /// How the file on disk, whose metadata is now `current`, compares to what
    /// was last loaded or saved.
    pub fn disk_status(&self, current: Option<DiskMeta>) -> (r: DiskStatus)
        ensures
            r == if self@.path is None || self@.disk is None {
                DiskStatus::Unchanged
            } else {
                match current {
                    Some(m) => if m == self@.disk->0 {
                        DiskStatus::Unchanged
                    } else {
                        DiskStatus::Modified
                    },
                    None => DiskStatus::Deleted,
                }
            },
    {
        if self.path.is_none() {
            return DiskStatus::Unchanged;
        }
        match self.disk {
            None => DiskStatus::Unchanged,
            Some(recorded) => match current {
                Some(m) => if m == recorded {
                    DiskStatus::Unchanged
                } else {
                    DiskStatus::Modified
                },
                None => DiskStatus::Deleted,
            },
        }
    }

    /// Replace the contents by `text`, as just read from the file. Keeps the
    /// cursor and the scroll position (as far as the new text reaches) and
    /// drops the carets, the selection and the history.
    pub fn reload_from_disk(&mut self, text: &str, disk: Option<DiskMeta>)
        requires
            old(self)@.wf(),
        ensures
            final(self)@ == (BufferState {
                text: text@,
                saved: text@,
                cursor: least(old(self)@.cursor, text@.len() as int),
                anchor: None,
                carets: Seq::empty(),
                scroll_row: least(old(self)@.scroll_row, line_total(text@) - 1),
                modified: false,
                undo: Seq::empty(),
                redo: Seq::empty(),
                last_kind: None,
                last_edit_cursor: None,
                revision: crate::buffer::state::next_revision(old(self)@.revision),
                disk,
                ..old(self)@
            }),
            final(self)@.wf(),
    {
        let rope = rope_from_str(text);
        let max_char: usize = rope_len_chars(&rope);
        let lines: usize = rope_len_lines(&rope);
        proof {
            lemma_line_around(text@, 0);
        }
        let max_row: usize = lines - 1;
        self.saved = rope_clone(&rope);
        self.rope = rope;
        if max_char < self.cursor {
            self.cursor = max_char;
        }
        self.anchor = None;
        self.carets.clear();
        if max_row < self.scroll_row {
            self.scroll_row = max_row;
        }
        self.modified = false;
        self.undo.clear();
        self.redo.clear();
        self.last_kind = None;
        self.last_edit_cursor = None;
        self.revision = self.revision.wrapping_add(1);
        self.disk = disk;
        assert(self.carets@ =~= Seq::empty());
        assert(carets_view(self.carets@) =~= Seq::empty());
        assert(snapshots_view(self.undo@) =~= Seq::empty());
        assert(snapshots_view(self.redo@) =~= Seq::empty());
    }

    /// Take the file's current metadata as what to compare against, without
    /// touching the text.
    pub fn rebaseline_disk(&mut self, current: Option<DiskMeta>)
        ensures
            final(self)@ == (BufferState {
                disk: if old(self)@.path is Some {
                    current
                } else {
                    old(self)@.disk
                },
                ..old(self)@
            }),
    {
        if self.path.is_some() {
            self.disk = current;
        }
    }

    /// Stop tracking the file on disk.
    pub fn forget_disk(&mut self)
        ensures
            final(self)@ == (BufferState { disk: None, ..old(self)@ }),
    {
        self.disk = None;
    }

    /// Whether the buffer matches its last-saved content.
    pub fn is_clean(&self) -> (r: bool)
        ensures
            r == (self@.text == self@.saved),
    {
        rope_same(&self.rope, &self.saved)
    }

    pub fn line_count(&self) -> (n: usize)
        ensures
            n == line_total(self@.text),
    {
        rope_len_lines(&self.rope)
    }

    /// Number of characters on `line`, excluding the trailing newline.
    pub fn line_len_chars(&self, line: usize) -> (n: usize)
        ensures
            n == line_len(self@.text, line as int),
    {
        if line >= rope_len_lines(&self.rope) {
            return 0;
        }
        let text = rope_line(&self.rope, line);
        proof {
            lemma_line_starts_increase(self@.text, line as int);
        }
        let v = chars_of(text.as_str());
        let mut len: usize = v.len();
        if len > 0 && v[len - 1] == '\n' {
            len = len - 1;
            if len > 0 && v[len - 1] == '\r' {
                len = len - 1;
            }
        }
        len
    }

    /// The row of the cursor.
    pub fn cursor_row(&self) -> (r: usize)
        requires
            self@.cursor <= self@.text.len(),
        ensures
            r == line_of(self@.text, self@.cursor),
    {
        rope_char_to_line(&self.rope, self.cursor)
    }

    /// The column of the cursor.
    pub fn cursor_col(&self) -> (r: usize)
        requires
            self@.cursor <= self@.text.len(),
        ensures
            r == col_of(self@.text, self@.cursor),
    {
        self.col_of(self.cursor)
    }

    /// Column (characters from the line's start) of any position.
    pub fn col_of(&self, pos: usize) -> (r: usize)
        requires
            pos <= self@.text.len(),
        ensures
            r == col_of(self@.text, pos as int),
    {
        proof {
            lemma_line_around(self@.text, pos as int);
        }
        let row: usize = rope_char_to_line(&self.rope, pos);
        pos - rope_line_to_char(&self.rope, row)
    }

    /// Count a change and work out again whether there are unsaved edits.
    pub(crate) fn bump(&mut self)
        ensures
            final(self)@ == old(self)@.bumped(),
    {
        self.revision = self.revision.wrapping_add(1);
        self.modified = !self.is_clean();
    }

    // ---- undo / redo ---------------------------------------------------

    fn snapshot(&self) -> (s: Snapshot)
        ensures
            s@ == self@.snapshot(),
    {
        Snapshot {
            rope: rope_clone(&self.rope),
            cursor: self.cursor,
            anchor: self.anchor,
            carets: copy_carets(&self.carets),
        }
    }

    /// Record the state before an edit. Consecutive edits of the same `kind`
    /// that pick up where the last one left off share one undo step; another
    /// kind or a moved cursor starts a new step. Always clears the redo stack.
    pub(crate) fn checkpoint(&mut self, kind: EditKind)
        requires
            old(self)@.wf(),
        ensures
            final(self)@ == old(self)@.checkpointed(kind),
            final(self)@.wf(),
    {
        let same_kind: bool = match self.last_kind {
            Some(k) => k == kind,
            None => false,
        };
        let same_place: bool = match self.last_edit_cursor {
            Some(c) => c == self.cursor,
            None => false,
        };
        let ghost st = self@;
        if !(self.undo.len() > 0 && same_kind && same_place) {
            let s = self.snapshot();
            let ghost before = self.undo@;
            self.undo.push(s);
            assert(snapshots_view(self.undo@) =~= st.undo.push(st.snapshot()));
            if self.undo.len() > UNDO_CAP {
                self.undo.remove(0);
                assert(snapshots_view(self.undo@) =~= st.undo.push(st.snapshot()).skip(1));
            }
        }
        self.redo.clear();
        assert(snapshots_view(self.redo@) =~= Seq::empty());
        assert(self@ =~= st.checkpointed(kind));
        assert forall|i: int| 0 <= i < self@.undo.len() implies (#[trigger] self@.undo[i]).wf() by {
            if st.coalesces(kind) {
                assert(self@.undo[i] == st.undo[i]);
            } else {
                assert(st.snapshot().wf());
                let grown = st.undo.push(st.snapshot());
                assert forall|k: int| 0 <= k < grown.len() implies (#[trigger] grown[k]).wf() by {}
                if grown.len() > UNDO_CAP {
                    assert(self@.undo[i] == grown[i + 1]);
                }
            }
        }
    }

    /// Note the cursor and the kind after an edit, so that the next edit can
    /// decide to join it.
    pub(crate) fn note_edit(&mut self, kind: EditKind)
        ensures
            final(self)@ == old(self)@.noted(kind),
    {
        self.last_kind = Some(kind);
        self.last_edit_cursor = Some(self.cursor);
    }

    fn restore(&mut self, s: Snapshot)
        ensures
            final(self)@ == old(self)@.restored(s@),
    {
        self.rope = s.rope;
        let n: usize = rope_len_chars(&self.rope);
        self.cursor = if s.cursor <= n {
            s.cursor
        } else {
            n
        };
        self.anchor = s.anchor;
        self.carets = s.carets;
        self.goal_col = self.cursor_col();
        self.last_kind = None;
        self.last_edit_cursor = None;
        self.bump();
    }

    /// Undo the most recent edit, or run of edits. Returns whether anything was
    /// undone.
    pub fn undo(&mut self) -> (r: bool)
        requires
            old(self)@.wf(),
        ensures
            r == (old(self)@.undo.len() > 0),
            final(self)@ == old(self)@.undone(),
            final(self)@.wf(),
    {
        let ghost st = self@;
        match self.undo.pop() {
            Some(prev) => {
                let cur = self.snapshot();
                assert(snapshots_view(self.undo@) =~= st.undo.drop_last());
                assert(prev@ == st.undo.last());
                self.restore(prev);
                let ghost redo = self@.redo;
                self.redo.push(cur);
                assert(snapshots_view(self.redo@) =~= redo.push(st.snapshot()));
                assert(self@ =~= st.undone());
                proof {
                    crate::buffer::laws::lemma_undone_wf(st);
                }
                true
            },
            None => false,
        }
    }

    /// Redo the last undone edit. Returns whether anything was redone.
    pub fn redo(&mut self) -> (r: bool)
        requires
            old(self)@.wf(),
        ensures
            r == (old(self)@.redo.len() > 0),
            final(self)@ == old(self)@.redone(),
            final(self)@.wf(),
    {
        let ghost st = self@;
        match self.redo.pop() {
            Some(next) => {
                let cur = self.snapshot();
                assert(snapshots_view(self.redo@) =~= st.redo.drop_last());
                assert(next@ == st.redo.last());
                self.restore(next);
                let ghost undo = self@.undo;
                self.undo.push(cur);
                assert(snapshots_view(self.undo@) =~= undo.push(st.snapshot()));
                assert(self@ =~= st.redone());
                proof {
                    crate::buffer::laws::lemma_redone_wf(st);
                }
                true
            },
            None => false,
        }
    }
}

} // verus!
