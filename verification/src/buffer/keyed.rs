//! What the keys that edit do to the text.

use crate::buffer::state::{BufferState, Move};
use crate::buffer::Buffer;
use crate::input::actions::KeyAction;
use crate::lines::{lemma_line_of_monotone, line_total};
use vstd::prelude::*;
use vstd::string::*;

verus! {

/// What the Tab key types.
pub const SOFT_TAB: &'static str = "    ";

impl BufferState {
    /// Whether there is room for what a key does, and the selections lie in the
    /// text.
    pub open spec fn can_edit(self, act: KeyAction) -> bool {
        match act {
            KeyAction::InsertChar(_) => self.takes(1),
            KeyAction::Newline => self.takes(1),
            KeyAction::InsertSoftTab => self.takes(4),
            KeyAction::Indent => self.takes(4 * line_total(self.text)),
            KeyAction::Outdent => self.selections_ok() && self.outdent_keeps_lines(),
            KeyAction::Backspace => self.selections_ok(),
            KeyAction::Delete => self.selections_ok(),
            KeyAction::DeleteWordLeft => self.selections_ok(),
            KeyAction::DeleteToLineStart => self.selections_ok(),
            _ => true,
        }
    }

    /// The text after a key that edits it or moves its carets.
    pub open spec fn edited_by(self, act: KeyAction) -> BufferState {
        match act {
            KeyAction::InsertChar(c) => self.pasted(seq![c]),
            KeyAction::Newline => self.pasted(seq!['\n']),
            KeyAction::InsertSoftTab => self.pasted(seq![' ', ' ', ' ', ' ']),
            KeyAction::Indent => self.block_indented(),
            KeyAction::Outdent => self.block_outdented(),
            KeyAction::Backspace => self.backspaced(),
            KeyAction::Delete => self.deleted_ahead(),
            KeyAction::DeleteWordLeft => self.word_deleted(),
            KeyAction::DeleteToLineStart => self.line_start_deleted(),
            KeyAction::MoveCarets { to, select } => if select {
                self.anchored().each_moved(to)
            } else {
                self.deselected().each_moved(to)
            },
            _ => self,
        }
    }
}

/// A typed character goes in at every caret.
pub proof fn law_a_character_key_types_it(st: BufferState, c: char)
    ensures
        st.edited_by(KeyAction::InsertChar(c)) == st.pasted(seq![c]),
{
}

/// Enter types a line feed.
pub proof fn law_enter_types_a_line_feed(st: BufferState)
    ensures
        st.edited_by(KeyAction::Newline) == st.pasted(seq!['\n']),
{
}

/// Tab types four spaces.
pub proof fn law_tab_types_four_spaces(st: BufferState)
    ensures
        st.edited_by(KeyAction::InsertSoftTab) == st.pasted(seq![' ', ' ', ' ', ' ']),
{
}

/// Indenting and outdenting are for the touched lines.
pub proof fn law_indent_keys_act_on_lines(st: BufferState)
    ensures
        st.edited_by(KeyAction::Indent) == st.block_indented(),
        st.edited_by(KeyAction::Outdent) == st.block_outdented(),
{
}

/// Backspace takes what is before the carets.
pub proof fn law_backspace_deletes_before(st: BufferState)
    ensures
        st.edited_by(KeyAction::Backspace) == st.backspaced(),
{
}

/// Delete takes what is behind the carets.
pub proof fn law_delete_deletes_behind(st: BufferState)
    ensures
        st.edited_by(KeyAction::Delete) == st.deleted_ahead(),
{
}

/// Deleting by words and to the start of the line go back from the carets.
pub proof fn law_wider_deletions_go_back(st: BufferState)
    ensures
        st.edited_by(KeyAction::DeleteWordLeft) == st.word_deleted(),
        st.edited_by(KeyAction::DeleteToLineStart) == st.line_start_deleted(),
{
}

/// A movement key selects with Shift, and lets go of the selections without; then it
/// moves every caret.
pub proof fn law_movement_keys_move_the_carets(st: BufferState, m: Move, select: bool)
    ensures
        select ==> st.edited_by(KeyAction::MoveCarets { to: m, select }) == st.anchored().each_moved(
            m,
        ),
        !select ==> st.edited_by(KeyAction::MoveCarets { to: m, select })
            == st.deselected().each_moved(m),
{
}

/// The lines that a selection touches are lines of the text.
proof fn lemma_touched(s: BufferState)
    requires
        s.wf(),
        s.selections_ok(),
    ensures
        s.selection_ok(),
        0 <= s.touched_lines().0 <= s.touched_lines().1 < line_total(s.text),
{
    let p = s.primary();
    lemma_line_of_monotone(s.text, 0, p.start());
    lemma_line_of_monotone(s.text, p.start(), p.end());
    lemma_line_of_monotone(s.text, p.end(), s.text.len() as int);
}

impl Buffer {
    /// Do what a key that edits asks for; tells whether there was room.
    pub fn edit_by(&mut self, act: KeyAction) -> (r: bool)
        requires
            old(self)@.wf(),
        ensures
            r == old(self)@.can_edit(act),
            final(self)@ == if r {
                old(self)@.edited_by(act)
            } else {
                old(self)@
            },
            final(self)@.wf(),
    {
        match act {
            KeyAction::InsertChar(c) => {
                let room = self.has_room(1);
                if room {
                    self.insert_char(c);
                }
                room
            },
            KeyAction::Newline => {
                let room = self.has_room(1);
                if room {
                    self.newline();
                }
                room
            },
            KeyAction::InsertSoftTab => {
                let room = self.has_room(4);
                if room {
                    proof {
                        reveal_strlit("    ");
                        assert(SOFT_TAB@ =~= seq![' ', ' ', ' ', ' ']);
                    }
                    self.insert_str(SOFT_TAB);
                }
                room
            },
            KeyAction::Indent => self.indent_with_room(),
            KeyAction::Outdent => {
                let sound = self.has_sound_selections();
                if sound {
                    proof {
                        lemma_touched(self@);
                    }
                    let keeps = self.can_outdent();
                    if keeps {
                        self.outdent_selection();
                    }
                    keeps
                } else {
                    false
                }
            },
            KeyAction::Backspace => {
                let sound = self.has_sound_selections();
                if sound {
                    self.backspace();
                }
                sound
            },
            KeyAction::Delete => {
                let sound = self.has_sound_selections();
                if sound {
                    self.delete();
                }
                sound
            },
            KeyAction::DeleteWordLeft => {
                let sound = self.has_sound_selections();
                if sound {
                    self.delete_word_left();
                }
                sound
            },
            KeyAction::DeleteToLineStart => {
                let sound = self.has_sound_selections();
                if sound {
                    self.delete_to_line_start();
                }
                sound
            },
            KeyAction::MoveCarets { to, select } => {
                if select {
                    self.begin_selection();
                } else {
                    self.clear_selection();
                }
                self.each_caret_move(to);
                true
            },
            _ => true,
        }
    }

    /// Indent where every line could get longer.
    fn indent_with_room(&mut self) -> (r: bool)
        requires
            old(self)@.wf(),
        ensures
            r == old(self)@.can_edit(KeyAction::Indent),
            final(self)@ == if r {
                old(self)@.block_indented()
            } else {
                old(self)@
            },
            final(self)@.wf(),
    {
        let lines: usize = self.line_count();
        let ghost s = self@;
        if lines > usize::MAX / 4 {
            assert(!s.takes(4 * line_total(s.text))) by {
                let n: int = 4 * line_total(s.text) as int;
                let k: int = s.carets.len() as int;
                assert((k + 1) * n >= n) by (nonlinear_arith)
                    requires
                        k >= 0,
                        n >= 0,
                ;
            }
            return false;
        }
        if !self.has_room(4 * lines) {
            return false;
        }
        proof {
            lemma_touched(s);
            let n: int = 4 * line_total(s.text) as int;
            let k: int = s.carets.len() as int;
            assert((k + 1) * n >= n) by (nonlinear_arith)
                requires
                    k >= 0,
                    n >= 0,
            ;
        }
        self.indent_selection();
        true
    }
}

} // verus!
