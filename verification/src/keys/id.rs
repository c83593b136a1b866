//! Stable handles for the rows of the key table.

use vstd::prelude::*;

verus! {

pub const FILES_OPEN: &'static str = "FILES_OPEN";

pub const FOLDER_OPEN: &'static str = "FOLDER_OPEN";

pub const RECENT_OPEN: &'static str = "RECENT_OPEN";

pub const SEARCH_FILES_OPEN: &'static str = "SEARCH_FILES_OPEN";

pub const TERMINAL_TOGGLE: &'static str = "TERMINAL_TOGGLE";

pub const WORD_WRAP: &'static str = "WORD_WRAP";

pub const TODOS_OPEN: &'static str = "TODOS_OPEN";

pub const CLIP_OPEN: &'static str = "CLIP_OPEN";

pub const SETTINGS_OPEN: &'static str = "SETTINGS_OPEN";

pub const QUIT: &'static str = "QUIT";

pub const HELP: &'static str = "HELP";

pub const EDITOR_SAVE: &'static str = "EDITOR_SAVE";

pub const EDITOR_SAVE_ALL: &'static str = "EDITOR_SAVE_ALL";

pub const EDITOR_CLOSE: &'static str = "EDITOR_CLOSE";

pub const EDITOR_CLOSE_ALL: &'static str = "EDITOR_CLOSE_ALL";

pub const EDITOR_REOPEN: &'static str = "EDITOR_REOPEN";

pub const FIND_OPEN: &'static str = "FIND_OPEN";

pub const EDITOR_SPLIT: &'static str = "EDITOR_SPLIT";

pub const TAB_NEXT: &'static str = "TAB_NEXT";

pub const TAB_PREV: &'static str = "TAB_PREV";

pub const TAB_MOVE_LEFT: &'static str = "TAB_MOVE_LEFT";

pub const TAB_MOVE_RIGHT: &'static str = "TAB_MOVE_RIGHT";

pub const TAB_MOVE_HINT: &'static str = "TAB_MOVE_HINT";

pub const EDITOR_COPY: &'static str = "EDITOR_COPY";

pub const EDITOR_CUT: &'static str = "EDITOR_CUT";

pub const EDITOR_PASTE: &'static str = "EDITOR_PASTE";

pub const EDITOR_UNDO: &'static str = "EDITOR_UNDO";

pub const EDITOR_REDO: &'static str = "EDITOR_REDO";

pub const EDITOR_SELECT_ALL: &'static str = "EDITOR_SELECT_ALL";

pub const EDITOR_COPY_PATH: &'static str = "EDITOR_COPY_PATH";

pub const EDITOR_COPY_REL: &'static str = "EDITOR_COPY_REL";

pub const CURSOR_MOVE: &'static str = "CURSOR_MOVE";

pub const CURSOR_EXTEND: &'static str = "CURSOR_EXTEND";

pub const CURSOR_SELECT: &'static str = "CURSOR_SELECT";

pub const CURSOR_HOME_END: &'static str = "CURSOR_HOME_END";

pub const CURSOR_LINE_START: &'static str = "CURSOR_LINE_START";

pub const CURSOR_LINE_END: &'static str = "CURSOR_LINE_END";

pub const CURSOR_WORD_LEFT: &'static str = "CURSOR_WORD_LEFT";

pub const CURSOR_WORD_RIGHT: &'static str = "CURSOR_WORD_RIGHT";

pub const CURSOR_DOC_START: &'static str = "CURSOR_DOC_START";

pub const CURSOR_DOC_END: &'static str = "CURSOR_DOC_END";

pub const DELETE_WORD: &'static str = "DELETE_WORD";

pub const DELETE_LINE_START: &'static str = "DELETE_LINE_START";

pub const INDENT: &'static str = "INDENT";

pub const MULTI_CURSOR: &'static str = "MULTI_CURSOR";

pub const CARET_ABOVE: &'static str = "CARET_ABOVE";

pub const CARET_COLLAPSE: &'static str = "CARET_COLLAPSE";

pub const FD_NAV: &'static str = "FD_NAV";

pub const FD_EXPAND: &'static str = "FD_EXPAND";

pub const FD_COLLAPSE: &'static str = "FD_COLLAPSE";

pub const FD_OPEN: &'static str = "FD_OPEN";

pub const FD_TAB_IN: &'static str = "FD_TAB_IN";

pub const FD_TAB_OUT: &'static str = "FD_TAB_OUT";

pub const FD_NEW_FILE: &'static str = "FD_NEW_FILE";

pub const FD_NEW_FOLDER: &'static str = "FD_NEW_FOLDER";

pub const FD_RENAME: &'static str = "FD_RENAME";

pub const FD_DELETE: &'static str = "FD_DELETE";

pub const FD_COPY_PATH: &'static str = "FD_COPY_PATH";

pub const FD_COPY_REL: &'static str = "FD_COPY_REL";

pub const FD_REVEAL: &'static str = "FD_REVEAL";

pub const FD_JUNK: &'static str = "FD_JUNK";

pub const FD_BACKSPACE: &'static str = "FD_BACKSPACE";

pub const FD_TYPE: &'static str = "FD_TYPE";

pub const FD_CLOSE: &'static str = "FD_CLOSE";

pub const SF_TYPE: &'static str = "SF_TYPE";

pub const SF_NAV: &'static str = "SF_NAV";

pub const SF_OPEN: &'static str = "SF_OPEN";

pub const SF_CLOSE: &'static str = "SF_CLOSE";

pub const TERM_NEXT: &'static str = "TERM_NEXT";

pub const TERM_PREV: &'static str = "TERM_PREV";

pub const TERM_NEW: &'static str = "TERM_NEW";

pub const TERM_CLOSE: &'static str = "TERM_CLOSE";

pub const TERM_GRID: &'static str = "TERM_GRID";

pub const TERM_PICKER: &'static str = "TERM_PICKER";

pub const TERM_JUMP: &'static str = "TERM_JUMP";

pub const TERM_MOVE: &'static str = "TERM_MOVE";

pub const TERM_WORD: &'static str = "TERM_WORD";

pub const TERM_LINE: &'static str = "TERM_LINE";

pub const TERM_DEL: &'static str = "TERM_DEL";

pub const TERM_COPY_MODE: &'static str = "TERM_COPY_MODE";

pub const TERM_COPY: &'static str = "TERM_COPY";

pub const TERM_PASTE: &'static str = "TERM_PASTE";

pub const TERM_SCROLL: &'static str = "TERM_SCROLL";

pub const TERM_MARK: &'static str = "TERM_MARK";

pub const TERM_MOUSE: &'static str = "TERM_MOUSE";

pub const TERM_SOFT_NL: &'static str = "TERM_SOFT_NL";

pub const PICK_NAV: &'static str = "PICK_NAV";

pub const PICK_OPEN: &'static str = "PICK_OPEN";

pub const PICK_TYPE: &'static str = "PICK_TYPE";

pub const PICK_CLOSE: &'static str = "PICK_CLOSE";

pub const CM_MOVE: &'static str = "CM_MOVE";

pub const CM_MARK: &'static str = "CM_MARK";

pub const CM_WORD: &'static str = "CM_WORD";

pub const CM_COPY: &'static str = "CM_COPY";

pub const CM_SCROLL: &'static str = "CM_SCROLL";

pub const CM_EXIT: &'static str = "CM_EXIT";

pub const TODO_ADD: &'static str = "TODO_ADD";

pub const TODO_TOGGLE: &'static str = "TODO_TOGGLE";

pub const TODO_NAV: &'static str = "TODO_NAV";

pub const TODO_PASTE: &'static str = "TODO_PASTE";

pub const TODO_EDIT: &'static str = "TODO_EDIT";

pub const TODO_DELETE: &'static str = "TODO_DELETE";

pub const TODO_CLEAR: &'static str = "TODO_CLEAR";

pub const TODO_CLOSE: &'static str = "TODO_CLOSE";

pub const CLIP_PASTE: &'static str = "CLIP_PASTE";

pub const CLIP_NAV: &'static str = "CLIP_NAV";

pub const CLIP_TOGGLE: &'static str = "CLIP_TOGGLE";

pub const CLIP_CLEAR: &'static str = "CLIP_CLEAR";

pub const CLIP_CLOSE: &'static str = "CLIP_CLOSE";

pub const FIND_NEXT: &'static str = "FIND_NEXT";

pub const FIND_PREV: &'static str = "FIND_PREV";

pub const FIND_REPLACE_TOGGLE: &'static str = "FIND_REPLACE_TOGGLE";

pub const FIND_SWITCH_FIELD: &'static str = "FIND_SWITCH_FIELD";

pub const FIND_REPLACE_ONE: &'static str = "FIND_REPLACE_ONE";

pub const FIND_REPLACE_ALL: &'static str = "FIND_REPLACE_ALL";

pub const FIND_CLOSE: &'static str = "FIND_CLOSE";

pub const SET_SECTION: &'static str = "SET_SECTION";

pub const SET_ADJUST: &'static str = "SET_ADJUST";

pub const SET_CLOSE: &'static str = "SET_CLOSE";

pub const REC_NAV: &'static str = "REC_NAV";

pub const REC_TOGGLE: &'static str = "REC_TOGGLE";

pub const REC_OPEN: &'static str = "REC_OPEN";

pub const REC_REMOVE: &'static str = "REC_REMOVE";

pub const REC_CLOSE: &'static str = "REC_CLOSE";

pub const HELP_SCROLL: &'static str = "HELP_SCROLL";

pub const HELP_PAGE: &'static str = "HELP_PAGE";

pub const HELP_CLOSE: &'static str = "HELP_CLOSE";

} // verus!
