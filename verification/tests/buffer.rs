use oxru::buffer::state::{DiskMeta, LineEnding};
use oxru::buffer::{Buffer, DiskStatus};

fn scratch() -> Buffer {
    Buffer::empty()
}

fn loaded(text: &str) -> Buffer {
    Buffer::from_text("/work/f.txt".to_string(), text, None)
}

#[test]
fn insert_and_text() {
    let mut b = scratch();
    for c in "hello".chars() {
        b.insert_char(c);
    }
    assert_eq!(b.rope.to_string(), "hello");
    assert_eq!(b.cursor, 5);
    assert_eq!(b.cursor_col(), 5);
}

#[test]
fn down_on_last_line_jumps_to_line_end() {
    let mut b = scratch();
    b.insert_str("first\nlast");
    b.cursor = 0;
    b.goal_col = 0;
    b.move_down(); // -> line 1, col 0
    assert_eq!(b.cursor_row(), 1);
    assert_eq!(b.cursor_col(), 0);
    b.move_down(); // already last line -> end of "last"
    assert_eq!(b.cursor_row(), 1);
    assert_eq!(b.cursor_col(), 4);
}

#[test]
fn up_on_first_line_jumps_to_start() {
    let mut b = scratch();
    b.insert_str("hello\nworld");
    b.cursor = 3; // line 0, col 3
    b.goal_col = 3;
    b.move_up(); // already first line -> start
    assert_eq!(b.cursor, 0);
    assert_eq!(b.cursor_col(), 0);
}

#[test]
fn undo_redo_roundtrip() {
    let mut b = scratch();
    b.insert_str("hello");
    assert!(b.undo());
    assert_eq!(b.rope.to_string(), "");
    assert!(b.redo());
    assert_eq!(b.rope.to_string(), "hello");
    // Nothing left to redo.
    assert!(!b.redo());
}

#[test]
fn typing_run_undoes_together() {
    let mut b = scratch();
    for c in "abc".chars() {
        b.insert_char(c);
    }
    // One undo clears the whole contiguous typing run.
    assert!(b.undo());
    assert_eq!(b.rope.to_string(), "");
    assert!(!b.undo());
}

#[test]
fn moving_cursor_breaks_the_undo_group() {
    let mut b = scratch();
    b.insert_str("hello"); // cursor at 5
    b.cursor = 0; // simulate an arrow key / click between edits
    b.insert_char('X'); // "Xhello"
    assert_eq!(b.rope.to_string(), "Xhello");
    b.undo(); // just the 'X'
    assert_eq!(b.rope.to_string(), "hello");
    b.undo(); // the "hello"
    assert_eq!(b.rope.to_string(), "");
}

#[test]
fn undo_back_to_saved_clears_modified() {
    let mut b = loaded("hello");
    assert!(!b.modified);
    b.insert_char('X'); // "Xhello"
    assert!(b.modified, "an edit marks it modified");
    b.undo(); // back to "hello"
    assert_eq!(b.rope.to_string(), "hello");
    assert!(!b.modified, "undoing back to the saved content clears modified");
    // Redoing the edit makes it dirty again.
    b.redo();
    assert!(b.modified);
}

#[test]
fn deleting_typed_text_back_to_saved_is_clean() {
    let mut b = loaded("abc");
    b.move_end();
    b.insert_char('d'); // "abcd"
    assert!(b.modified);
    b.backspace(); // manually back to "abc"
    assert!(!b.modified, "reverting by hand also clears modified");
}

#[test]
fn a_new_edit_clears_redo() {
    let mut b = scratch();
    b.insert_str("ab");
    b.undo();
    assert_eq!(b.rope.to_string(), "");
    b.insert_str("cd"); // diverging edit drops the redo history
    assert!(!b.redo());
    assert_eq!(b.rope.to_string(), "cd");
}

#[test]
fn undo_after_cut_restores_text() {
    let mut b = scratch();
    b.insert_str("hello world");
    b.anchor = Some(0);
    b.cursor = 5; // select "hello"
    assert!(b.delete_selection());
    assert_eq!(b.rope.to_string(), " world");
    b.undo();
    assert_eq!(b.rope.to_string(), "hello world");
}

#[test]
fn newline_and_rows() {
    let mut b = scratch();
    b.insert_str("ab\ncd");
    assert_eq!(b.line_count(), 2);
    assert_eq!(b.cursor_row(), 1);
    assert_eq!(b.cursor_col(), 2);
    assert_eq!(b.line_len_chars(0), 2);
}

#[test]
fn backspace_and_delete() {
    let mut b = scratch();
    b.insert_str("abc");
    b.backspace();
    assert_eq!(b.rope.to_string(), "ab");
    b.cursor = 0;
    b.delete();
    assert_eq!(b.rope.to_string(), "b");
}

#[test]
fn vertical_movement_keeps_goal_col() {
    let mut b = scratch();
    b.insert_str("long line\nx\nanother");
    b.cursor = 0;
    b.move_end();
    assert_eq!(b.cursor_col(), 9);
    b.move_down();
    assert_eq!(b.cursor_col(), 1);
    b.move_down();
    assert_eq!(b.cursor_col(), 7);
}

#[test]
fn select_all_and_text() {
    let mut b = scratch();
    b.insert_str("abc\ndef");
    b.select_all();
    assert_eq!(b.selection(), Some((0, 7)));
    assert_eq!(b.selected_text().as_deref(), Some("abc\ndef"));
}

#[test]
fn double_click_selects_word_not_across_lines() {
    let mut b = scratch();
    b.insert_str("foo bar\nbaz");
    // Click inside "bar" (index 5) selects the whole word.
    b.select_word_at(5);
    assert_eq!(b.selected_text().as_deref(), Some("bar"));
    // A click in the leading-space run selects just that run, not the words.
    b.select_word_at(3);
    assert_eq!(b.selected_text().as_deref(), Some(" "));
    // Word select never crosses the newline.
    b.select_word_at(8); // "baz" on line 2
    assert_eq!(b.selected_text().as_deref(), Some("baz"));
}

#[test]
fn triple_click_selects_line_with_newline() {
    let mut b = scratch();
    b.insert_str("abc\ndef\nghi");
    b.select_line_at(5); // on the "def" line
    assert_eq!(b.selected_text().as_deref(), Some("def\n"));
    b.select_line_at(9); // last line has no trailing newline
    assert_eq!(b.selected_text().as_deref(), Some("ghi"));
}

#[test]
fn shift_move_extends_then_delete() {
    let mut b = scratch();
    b.insert_str("hello");
    b.cursor = 0;
    b.begin_selection();
    b.move_right();
    b.move_right();
    assert_eq!(b.selected_text().as_deref(), Some("he"));
    assert!(b.delete_selection());
    assert_eq!(b.rope.to_string(), "llo");
    assert_eq!(b.cursor, 0);
    assert!(b.selection().is_none());
}

#[test]
fn typing_replaces_selection() {
    let mut b = scratch();
    b.insert_str("abc");
    b.select_all();
    b.insert_char('X');
    assert_eq!(b.rope.to_string(), "X");
}

#[test]
fn word_movement_lands_on_boundaries() {
    let mut b = scratch();
    b.insert_str("foo bar_baz  qux");
    b.cursor = 0;
    b.move_word_right(); // end of "foo"
    assert_eq!(b.cursor, 3);
    b.move_word_right(); // end of "bar_baz" (underscore is a word char)
    assert_eq!(b.cursor, 11);
    b.move_word_left(); // back to start of "bar_baz"
    assert_eq!(b.cursor, 4);
    b.move_word_left(); // start of "foo"
    assert_eq!(b.cursor, 0);
}

#[test]
fn delete_word_left_removes_one_word() {
    let mut b = scratch();
    b.insert_str("hello world");
    b.delete_word_left(); // removes "world"
    assert_eq!(b.rope.to_string(), "hello ");
    let r = b.rope.to_string();
    b.delete_word_left(); // removes "hello " up to start of that word
    assert!(b.rope.to_string().len() < r.len());
}

#[test]
fn delete_to_line_start_clears_to_bol() {
    let mut b = scratch();
    b.insert_str("    indented");
    // cursor at end; delete to start of line removes everything before it.
    b.delete_to_line_start();
    assert_eq!(b.rope.to_string(), "");
}

#[test]
fn indent_and_outdent_a_block() {
    let mut b = scratch();
    b.insert_str("a\nb\nc");
    b.anchor = Some(0);
    b.cursor = b.rope.len_chars(); // select all three lines
    b.indent_selection();
    assert_eq!(b.rope.to_string(), "    a\n    b\n    c");
    b.outdent_selection();
    assert_eq!(b.rope.to_string(), "a\nb\nc");
}

#[test]
fn outdent_single_line_without_selection() {
    let mut b = scratch();
    b.insert_str("    x");
    b.cursor = b.rope.len_chars();
    b.outdent_selection(); // no selection -> dedents the cursor's line
    assert_eq!(b.rope.to_string(), "x");
}

#[test]
fn revision_changes_on_edit() {
    let mut b = scratch();
    let r0 = b.revision();
    b.insert_char('a');
    assert_ne!(r0, b.revision());
}

#[test]
fn add_caret_below_then_insert_hits_every_line() {
    let mut b = scratch();
    b.insert_str("aaa\nbbb\nccc");
    b.cursor = 0;
    b.anchor = None;
    b.goal_col = 0;
    b.add_caret_below();
    b.add_caret_below();
    assert_eq!(b.caret_count(), 3);
    b.insert_char('X');
    assert_eq!(b.rope.to_string(), "Xaaa\nXbbb\nXccc");
    assert_eq!(b.caret_count(), 3, "carets survive the edit");
}

#[test]
fn cmd_d_selects_word_then_following_occurrences() {
    let mut b = scratch();
    b.insert_str("foo bar foo baz foo");
    b.cursor = 0;
    b.anchor = None;
    assert!(b.add_next_occurrence()); // first press selects the word
    assert_eq!(b.selected_text().as_deref(), Some("foo"));
    assert_eq!(b.caret_count(), 1);
    assert!(b.add_next_occurrence()); // second "foo"
    assert!(b.add_next_occurrence()); // third "foo"
    assert_eq!(b.caret_count(), 3);
    b.insert_str("X"); // replace all three at once
    assert_eq!(b.rope.to_string(), "X bar X baz X");
}

#[test]
fn multi_caret_backspace_deletes_at_each() {
    let mut b = scratch();
    b.insert_str("xa\nxb");
    b.cursor = 1; // just after the first 'x'
    b.anchor = None;
    b.goal_col = 1;
    b.add_caret_below();
    assert_eq!(b.caret_count(), 2);
    b.backspace();
    assert_eq!(b.rope.to_string(), "a\nb");
}

#[test]
fn carets_merge_when_they_collide() {
    let mut b = scratch();
    b.insert_str("ab\ncd");
    b.cursor = 0;
    b.anchor = None;
    b.goal_col = 0;
    b.add_caret_below();
    assert_eq!(b.caret_count(), 2);
    b.move_doc_start(); // both collapse onto index 0
    assert_eq!(b.caret_count(), 1);
    assert_eq!(b.cursor, 0);
}

#[test]
fn undo_restores_a_multi_caret_edit() {
    let mut b = scratch();
    b.insert_str("a\na\na");
    b.cursor = 0;
    b.anchor = None;
    b.goal_col = 0;
    b.add_caret_below();
    b.add_caret_below();
    b.insert_char('Z');
    assert_eq!(b.rope.to_string(), "Za\nZa\nZa");
    b.undo();
    assert_eq!(b.rope.to_string(), "a\na\na");
}

#[test]
fn escape_collapses_to_one_caret() {
    let mut b = scratch();
    b.insert_str("a\nb\nc");
    b.cursor = 0;
    b.anchor = None;
    b.goal_col = 0;
    b.add_caret_below();
    assert!(b.has_extra_carets());
    assert!(b.clear_extra_carets());
    assert!(!b.has_extra_carets());
    assert_eq!(b.caret_count(), 1);
}

#[test]
fn saving_makes_the_buffer_clean() {
    let mut b = loaded("");
    b.insert_str("save me\n");
    assert!(b.modified);
    b.mark_saved(None);
    assert!(!b.modified);
    assert_eq!(b.saved.to_string(), "save me\n");
}

#[test]
fn line_endings_are_told_apart() {
    assert_eq!(LineEnding::detect("a\r\nb"), LineEnding::Crlf);
    assert_eq!(LineEnding::detect("a\nb"), LineEnding::Lf);
    assert_eq!(LineEnding::detect(""), LineEnding::Lf);
    assert_eq!(LineEnding::Crlf.label(), "CRLF");
    assert_eq!(LineEnding::Lf.label(), "LF");
}

#[test]
fn a_file_that_changed_on_disk_is_noticed() {
    let meta = |len: u64| Some(DiskMeta { modified: 5, len });
    let b = Buffer::from_text("/work/f.txt".to_string(), "abc", meta(3));
    assert_eq!(b.disk_status(meta(3)), DiskStatus::Unchanged);
    assert_eq!(b.disk_status(meta(4)), DiskStatus::Modified);
    assert_eq!(b.disk_status(None), DiskStatus::Deleted);
    let mut kept = Buffer::from_text("/work/f.txt".to_string(), "abc", meta(3));
    kept.rebaseline_disk(meta(4));
    assert_eq!(kept.disk_status(meta(4)), DiskStatus::Unchanged);
    kept.forget_disk();
    assert_eq!(kept.disk_status(None), DiskStatus::Unchanged);
    assert_eq!(scratch().disk_status(None), DiskStatus::Unchanged);
}

#[test]
fn reloading_takes_the_text_of_the_disk() {
    let mut b = loaded("one\ntwo\nthree");
    b.cursor = 9;
    b.insert_char('X');
    b.reload_from_disk("one\n", None);
    assert_eq!(b.rope.to_string(), "one\n");
    assert!(!b.modified);
    assert!(b.cursor <= 4);
    assert!(b.selection().is_none());
}

#[test]
fn a_crlf_is_one_line_break() {
    let mut b = scratch();
    b.insert_str("ab\r\ncd");
    assert_eq!(b.line_count(), 2);
    assert_eq!(b.line_len_chars(0), 2);
    assert_eq!(b.cursor_row(), 1);
    assert_eq!(b.cursor_col(), 2);
    assert_eq!(b.col_of(0), 0);
}

#[test]
fn a_backspace_takes_back_a_typed_character() {
    let mut b = scratch();
    b.insert_str("ab");
    b.cursor = 1;
    b.insert_char('\u{4e2d}');
    assert_eq!(b.rope.to_string(), "a\u{4e2d}b");
    b.backspace();
    assert_eq!(b.rope.to_string(), "ab");
    assert_eq!(b.cursor, 1);
}

#[test]
fn redo_takes_an_undo_back() {
    let mut b = scratch();
    b.insert_str("a");
    b.newline();
    b.insert_str("b");
    let text = b.rope.to_string();
    assert!(b.undo());
    assert!(b.redo());
    assert_eq!(b.rope.to_string(), text);
}

#[test]
fn the_caret_stays_in_view() {
    let mut b = scratch();
    b.insert_str(&"x\n".repeat(100));
    b.follow(10, true);
    assert_eq!(b.scroll_row, 91);
    b.scroll_by(-50);
    assert_eq!(b.scroll_row, 41);
    b.follow(10, false);
    assert_eq!(b.scroll_row, 41, "the view stays where the wheel put it");
    b.scroll_page(true, 9);
    assert_eq!(b.scroll_row, 32);
}

#[test]
fn a_selection_of_two_lines_spans_lines() {
    let mut b = scratch();
    b.insert_str("ab\ncd");
    assert!(!b.spans_lines());
    b.select_range(0, 2);
    assert!(!b.spans_lines());
    b.select_range(0, 4);
    assert!(b.spans_lines());
}

#[test]
fn a_search_result_is_selected_by_line_and_column() {
    let mut b = scratch();
    b.insert_str("one\ntwo three\n");
    b.select_span(1, 4, 9);
    assert_eq!(b.selected_text().as_deref(), Some("three"));
}

#[test]
fn a_buffer_is_called_after_its_file() {
    assert_eq!(loaded("").name(), "f.txt");
    assert!(loaded("x").is_clean());
}

#[test]
fn room_and_sound_selections_can_be_asked_for() {
    let mut b = scratch();
    b.insert_str("abc");
    assert!(b.has_room(10));
    assert!(b.has_sound_selections());
    b.anchor = Some(9);
    assert!(!b.has_sound_selections(), "the selection reaches past the end");
}

#[test]
fn a_caret_moves_left_and_home() {
    let mut b = Buffer::from_text("/f".to_string(), "ab\ncd", None);
    b.move_doc_end();
    b.move_left();
    assert_eq!(b.cursor, 4);
    b.move_home();
    assert_eq!(b.cursor, 3);
    b.move_left();
    assert_eq!(b.cursor, 2);
    b.add_caret_below();
    assert_eq!(b.extra_carets().len(), 1);
    // The new caret leads.
    assert_eq!(b.cursor, 5);
    assert_eq!(b.extra_carets()[0].cursor, 2);
}

#[test]
fn outdenting_takes_back_an_indent_whatever_ends_the_lines() {
    for text in ["a\n\nb\n", "a\r\nb", "a\rb\r", "x\u{2028}y", "\t a", ""] {
        let n = text.chars().count();
        for from in 0..=n {
            for to in 0..=n {
                let mut b = loaded(text);
                b.cursor = to;
                b.anchor = if from == to { None } else { Some(from) };
                let before = b.rope.to_string();
                b.indent_selection();
                assert_ne!(b.rope.to_string(), before);
                b.outdent_selection();
                assert_eq!(b.rope.to_string(), before, "{text:?} {from}..{to}");
                if from == to {
                    assert_eq!(b.cursor, to);
                }
            }
        }
    }
}

#[test]
fn undo_and_redo_of_an_insertion() {
    let mut b = loaded("one two");
    assert!(!b.undo() && !b.redo(), "no history");
    b.cursor = 7;
    b.anchor = Some(4);
    b.insert_str("2");
    assert_eq!(b.rope.to_string(), "one 2");
    assert!(b.undo());
    assert_eq!((b.rope.to_string().as_str(), b.cursor, b.anchor), ("one two", 7, Some(4)));
    assert!(b.redo());
    assert_eq!((b.rope.to_string().as_str(), b.cursor, b.anchor), ("one 2", 5, None));
    assert!(b.undo());
    b.insert_str("x");
    assert!(!b.redo(), "there is nothing to redo after an edit");
    assert_eq!(b.rope.to_string(), "one x");
}
