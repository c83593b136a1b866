//! The key table: every shortcut, declared once. Its order is the order in which
//! the cheat-sheet prints.

use crate::keys::{
    Mods, Shortcut, G_CLIP, G_COPY, G_EDITOR_CURSOR, G_EDITOR_FILES, G_FILES, G_FIND, G_GLOBAL,
    G_NONE, G_PICKER, G_RECENT, G_SEARCH, G_SETTINGS, G_TERMINAL, G_TODOS,
};
use vstd::prelude::*;

verus! {

/// How many shortcuts there are.
pub const KEY_COUNT: usize = 127;

/// A row of the table.
#[verifier::allow_in_spec]
pub fn shortcut(
    id: &'static str,
    mods: Mods,
    key: &'static str,
    label: &'static str,
    short: &'static str,
    group: &'static str,
    pair: &'static str,
    folder: bool,
) -> Shortcut
    returns
        (Shortcut { id, mods, key, label, short, group, pair, folder }),
{
    Shortcut { id, mods, key, label, short, group, pair, folder }
}

/// Row `i` of the table.
#[verifier::opaque]
pub open spec fn row(i: usize) -> Shortcut {
    match i {
        0 => shortcut("FILES_OPEN", Mods::Alt, "F", "Open files", "Files", G_GLOBAL, "", true),
        1 => shortcut("FOLDER_OPEN", Mods::Cmd, "O", "Open folder\u{2026}", "Open other\u{2026}", G_GLOBAL, "", false),
        2 => shortcut("RECENT_OPEN", Mods::Alt, "O", "Recent folders", "", G_GLOBAL, "", false),
        3 => shortcut("SEARCH_FILES_OPEN", Mods::CmdShift, "F", "Search in files", "Search files", G_GLOBAL, "", true),
        4 => shortcut("TERMINAL_TOGGLE", Mods::Alt, "T", "Toggle terminal", "Term", G_GLOBAL, "", true),
        5 => shortcut("WORD_WRAP", Mods::Alt, "Z", "Toggle word wrap", "Wrap", G_GLOBAL, "", false),
        6 => shortcut("TODOS_OPEN", Mods::Alt, "D", "To-do list", "To-do", G_GLOBAL, "", false),
        7 => shortcut("CLIP_OPEN", Mods::Alt, "V", "Clipboard history", "Clipboard", G_GLOBAL, "", false),
        8 => shortcut("SETTINGS_OPEN", Mods::Cmd, ",", "Settings", "Settings", G_GLOBAL, "", false),
        9 => shortcut("QUIT", Mods::Cmd, "Q", "Quit", "Quit", G_GLOBAL, "", false),
        10 => shortcut("HELP", Mods::Plain, "F1", "This shortcuts list", "Shortcuts", G_GLOBAL, "", false),
        11 => shortcut("EDITOR_SAVE", Mods::Cmd, "S", "Save", "Save", G_EDITOR_FILES, "save", true),
        12 => shortcut("EDITOR_SAVE_ALL", Mods::CmdShift, "S", "Save all", "Save all", G_EDITOR_FILES, "save", true),
        13 => shortcut("EDITOR_CLOSE", Mods::Cmd, "W", "Close tab", "Close", G_EDITOR_FILES, "close", true),
        14 => shortcut("EDITOR_CLOSE_ALL", Mods::CmdShift, "W", "Close all", "Close all", G_EDITOR_FILES, "close", true),
        15 => shortcut("EDITOR_REOPEN", Mods::CmdShift, "T", "Reopen closed tab", "Reopen", G_EDITOR_FILES, "", true),
        16 => shortcut("FIND_OPEN", Mods::Cmd, "F", "Find in file", "Find", G_EDITOR_FILES, "", true),
        17 => shortcut("EDITOR_SPLIT", Mods::Cmd, "\\", "Split / unsplit view", "Split", G_EDITOR_FILES, "", true),
        18 => shortcut("TAB_NEXT", Mods::Ctrl, "Tab", "Next tab", "Switch", G_EDITOR_FILES, "tab", true),
        19 => shortcut("TAB_PREV", Mods::CtrlShift, "Tab", "previous", "", G_EDITOR_FILES, "tab", true),
        20 => shortcut("TAB_MOVE_LEFT", Mods::Ctrl, "<", "Move tab left", "", G_EDITOR_FILES, "tabmv", true),
        21 => shortcut("TAB_MOVE_RIGHT", Mods::Ctrl, ">", "right", "", G_EDITOR_FILES, "tabmv", true),
        22 => shortcut("TAB_MOVE_HINT", Mods::Text, "\u{2303}\u{21e7}\u{2194}", "Move tab left \u{b7} right", "Move tab", G_NONE, "", true),
        23 => shortcut("EDITOR_COPY", Mods::Cmd, "C", "Copy", "Copy", G_EDITOR_FILES, "clip", true),
        24 => shortcut("EDITOR_CUT", Mods::Cmd, "X", "Cut", "Cut", G_EDITOR_FILES, "clip", true),
        25 => shortcut("EDITOR_PASTE", Mods::Cmd, "V", "Paste", "Paste", G_EDITOR_FILES, "clip", true),
        26 => shortcut("EDITOR_UNDO", Mods::Cmd, "Z", "Undo", "Undo", G_EDITOR_FILES, "undo", true),
        27 => shortcut("EDITOR_REDO", Mods::CmdShift, "Z", "Redo", "Redo", G_EDITOR_FILES, "undo", true),
        28 => shortcut("EDITOR_SELECT_ALL", Mods::Cmd, "A", "Select all", "Select all", G_EDITOR_FILES, "", true),
        29 => shortcut("EDITOR_COPY_PATH", Mods::CmdShift, "C", "Copy path", "Copy path", G_EDITOR_FILES, "path", true),
        30 => shortcut("EDITOR_COPY_REL", Mods::CmdShift, "R", "Relative path", "", G_EDITOR_FILES, "path", true),
        31 => shortcut("CURSOR_MOVE", Mods::Text, "\u{2190} \u{2192} \u{2191} \u{2193}", "Move the cursor", "", G_EDITOR_CURSOR, "", true),
        32 => shortcut("CURSOR_EXTEND", Mods::Text, "\u{21e7} + any move below", "Extend the selection (mark text)", "", G_EDITOR_CURSOR, "", true),
        33 => shortcut("CURSOR_SELECT", Mods::Text, "\u{21e7}\u{2190}\u{2191}\u{2193}\u{2192}", "Mark text", "Select", G_NONE, "", true),
        34 => shortcut("CURSOR_HOME_END", Mods::Text, "Home  End", "Line start \u{b7} end", "", G_EDITOR_CURSOR, "", true),
        35 => shortcut("CURSOR_LINE_START", Mods::Cmd, "\u{2190}", "Line start", "", G_EDITOR_CURSOR, "line", true),
        36 => shortcut("CURSOR_LINE_END", Mods::Cmd, "\u{2192}", "end", "", G_EDITOR_CURSOR, "line", true),
        37 => shortcut("CURSOR_WORD_LEFT", Mods::Alt, "\u{2190}", "Word left", "", G_EDITOR_CURSOR, "word", true),
        38 => shortcut("CURSOR_WORD_RIGHT", Mods::Alt, "\u{2192}", "right", "", G_EDITOR_CURSOR, "word", true),
        39 => shortcut("CURSOR_DOC_START", Mods::Cmd, "\u{2191}", "Document start", "", G_EDITOR_CURSOR, "doc", true),
        40 => shortcut("CURSOR_DOC_END", Mods::Cmd, "\u{2193}", "end", "", G_EDITOR_CURSOR, "doc", true),
        41 => shortcut("DELETE_WORD", Mods::Alt, "\u{232b}", "Delete word", "", G_EDITOR_CURSOR, "del", true),
        42 => shortcut("DELETE_LINE_START", Mods::Cmd, "\u{232b}", "to line start", "", G_EDITOR_CURSOR, "del", true),
        43 => shortcut("INDENT", Mods::Text, "Tab  \u{21e7}Tab", "Indent \u{b7} outdent selection", "", G_EDITOR_CURSOR, "", true),
        44 => shortcut("MULTI_CURSOR", Mods::Cmd, "D", "Add caret at next match (multi-cursor)", "Multi-cursor", G_EDITOR_CURSOR, "", true),
        45 => shortcut("CARET_ABOVE", Mods::Text, "\u{2318}\u{2325}\u{2191}  \u{2318}\u{2325}\u{2193}", "Add caret above \u{b7} below", "Add caret", G_EDITOR_CURSOR, "", true),
        46 => shortcut("CARET_COLLAPSE", Mods::Plain, "Esc", "Collapse to one caret", "One caret", G_EDITOR_CURSOR, "", true),
        47 => shortcut("FD_NAV", Mods::Text, "\u{2191}\u{2193}", "Navigate", "Move", G_FILES, "", true),
        48 => shortcut("FD_EXPAND", Mods::Plain, "\u{2192}", "Expand folder", "Expand", G_FILES, "fdtree", true),
        49 => shortcut("FD_COLLAPSE", Mods::Plain, "\u{2190}", "collapse folder", "Collapse", G_FILES, "fdtree", true),
        50 => shortcut("FD_OPEN", Mods::Plain, "\u{21b5}", "Open file / fold folder", "Open", G_FILES, "", true),
        51 => shortcut("FD_TAB_IN", Mods::Plain, "Tab", "Search into folder", "Select", G_FILES, "fdtab", true),
        52 => shortcut("FD_TAB_OUT", Mods::Shift, "Tab", "out of folder", "Out", G_FILES, "fdtab", true),
        53 => shortcut("FD_NEW_FILE", Mods::Cmd, "N", "New file", "New File", G_FILES, "", true),
        54 => shortcut("FD_NEW_FOLDER", Mods::AltShift, "N", "New folder", "New Folder", G_FILES, "", true),
        55 => shortcut("FD_RENAME", Mods::Cmd, "R", "Rename", "Rename", G_FILES, "", true),
        56 => shortcut("FD_DELETE", Mods::Cmd, "D", "Delete", "Delete", G_FILES, "", true),
        57 => shortcut("FD_COPY_PATH", Mods::CmdShift, "C", "Copy path", "Copy Path", G_FILES, "fdpath", true),
        58 => shortcut("FD_COPY_REL", Mods::CmdShift, "R", "Relative path", "Rel Path", G_FILES, "fdpath", true),
        59 => shortcut("FD_REVEAL", Mods::Alt, "R", "Reveal in Finder", "Reveal in Finder", G_FILES, "", true),
        60 => shortcut("FD_JUNK", Mods::Alt, "H", "Search: show / hide node_modules, build\u{2026}", "Hidden", G_FILES, "", true),
        61 => shortcut("FD_BACKSPACE", Mods::Text, "\u{232b}", "Delete query / out of folder", "", G_FILES, "", true),
        62 => shortcut("FD_TYPE", Mods::Text, "type\u{2026}", "Search files", "", G_FILES, "", true),
        63 => shortcut("FD_CLOSE", Mods::Plain, "Esc", "Close", "Close", G_FILES, "", true),
        64 => shortcut("SF_TYPE", Mods::Text, "type\u{2026}", "Edit query \u{2014} searches automatically", "", G_SEARCH, "", true),
        65 => shortcut("SF_NAV", Mods::Text, "\u{2191}\u{2193}", "Navigate results", "Move", G_SEARCH, "", true),
        66 => shortcut("SF_OPEN", Mods::Plain, "\u{21b5}", "Open selected result", "Open", G_SEARCH, "", true),
        67 => shortcut("SF_CLOSE", Mods::Plain, "Esc", "Close", "Close", G_SEARCH, "", true),
        68 => shortcut("TERM_NEXT", Mods::Ctrl, "Tab", "Next terminal", "Next", G_TERMINAL, "tnav", true),
        69 => shortcut("TERM_PREV", Mods::CtrlShift, "Tab", "previous", "Prev", G_TERMINAL, "tnav", true),
        70 => shortcut("TERM_NEW", Mods::Alt, "N", "New terminal", "New", G_TERMINAL, "", true),
        71 => shortcut("TERM_CLOSE", Mods::Alt, "W", "Close terminal", "Close", G_TERMINAL, "", true),
        72 => shortcut("TERM_GRID", Mods::Alt, "G", "Grid layout (click a tile to switch)", "Grid", G_TERMINAL, "", true),
        73 => shortcut("TERM_PICKER", Mods::Alt, "K", "Quick-switch terminal (type to filter)", "Switch\u{2026}", G_TERMINAL, "", true),
        74 => shortcut("TERM_JUMP", Mods::Alt, "1-9", "Jump to terminal N", "Jump to tab", G_TERMINAL, "", true),
        75 => shortcut("TERM_MOVE", Mods::Text, "\u{2303}\u{21e7}\u{2194}", "Move terminal left \u{b7} right", "Move", G_TERMINAL, "", true),
        76 => shortcut("TERM_WORD", Mods::Text, "\u{2325}\u{2190}\u{2192} \u{2303}\u{2190}\u{2192}", "Shell cursor by word", "Word", G_TERMINAL, "", true),
        77 => shortcut("TERM_LINE", Mods::Text, "\u{2318}\u{2190}  \u{2318}\u{2192}", "Cursor to line start \u{b7} end", "", G_TERMINAL, "", true),
        78 => shortcut("TERM_DEL", Mods::Text, "\u{2325}\u{232b} \u{2318}\u{232b}", "Delete word \u{b7} to line start", "Word del", G_TERMINAL, "", true),
        79 => shortcut("TERM_COPY_MODE", Mods::Alt, "\u{2191}", "Copy mode (free cursor + select)", "Select mode", G_TERMINAL, "", true),
        80 => shortcut("TERM_COPY", Mods::SuperShift, "C", "Copy selection", "Copy", G_TERMINAL, "tclip", true),
        81 => shortcut("TERM_PASTE", Mods::SuperShift, "V", "Paste", "Paste", G_TERMINAL, "tclip", true),
        82 => shortcut("TERM_SCROLL", Mods::Text, "\u{21e7}PgUp/Dn  fn\u{2191}/\u{2193}", "Scroll history", "Scroll", G_TERMINAL, "", true),
        83 => shortcut("TERM_MARK", Mods::Text, "\u{21e7}\u{2190} \u{2191} \u{2192} \u{2193}", "Mark text (\u{21e7}\u{2325} by word)", "Mark", G_TERMINAL, "", true),
        84 => shortcut("TERM_MOUSE", Mods::Text, "Drag \u{b7} \u{21e7}Click", "Select w/ mouse (\u{21e7}Click extends)", "", G_TERMINAL, "", true),
        85 => shortcut("TERM_SOFT_NL", Mods::Text, "\u{2325}\u{21b5}  \u{21e7}\u{21b5}", "Soft newline (don't submit)", "", G_TERMINAL, "", true),
        86 => shortcut("PICK_NAV", Mods::Text, "\u{2191}\u{2193}", "Move through the open terminals", "Move", G_PICKER, "", true),
        87 => shortcut("PICK_OPEN", Mods::Plain, "\u{21b5}", "Switch to it", "Switch", G_PICKER, "", true),
        88 => shortcut("PICK_TYPE", Mods::Text, "type\u{2026}", "Filter by folder \u{b7} command", "Filter", G_PICKER, "", true),
        89 => shortcut("PICK_CLOSE", Mods::Plain, "Esc", "Close", "Close", G_PICKER, "", true),
        90 => shortcut("CM_MOVE", Mods::Text, "\u{2190}\u{2191}\u{2193}\u{2192} / hjkl", "Move cursor", "Move", G_COPY, "", true),
        91 => shortcut("CM_MARK", Mods::Text, "\u{21e7} + arrows", "Mark / extend selection", "Mark", G_COPY, "", true),
        92 => shortcut("CM_WORD", Mods::Text, "\u{2325}\u{2190}  \u{2325}\u{2192}", "Move by word", "Word", G_COPY, "", true),
        93 => shortcut("CM_COPY", Mods::Text, "\u{21b5} / y", "Copy & exit", "Copy", G_COPY, "", true),
        94 => shortcut("CM_SCROLL", Mods::Text, "\u{21e7}PgUp/Dn", "Scroll while selecting", "Scroll", G_COPY, "", true),
        95 => shortcut("CM_EXIT", Mods::Text, "Esc / q", "Exit copy mode", "Exit", G_COPY, "", true),
        96 => shortcut("TODO_ADD", Mods::Plain, "\u{21b5}", "Add the typed task", "Add", G_TODOS, "", false),
        97 => shortcut("TODO_TOGGLE", Mods::Plain, "Space", "Toggle the highlighted task", "Toggle", G_TODOS, "", false),
        98 => shortcut("TODO_NAV", Mods::Text, "\u{2191}\u{2193}", "Move through the list", "Move", G_TODOS, "", false),
        99 => shortcut("TODO_PASTE", Mods::Cmd, "V", "Paste a list \u{2014} one task per line", "Paste list", G_TODOS, "", false),
        100 => shortcut("TODO_EDIT", Mods::Cmd, "E", "Edit the raw markdown file in a tab", "Edit", G_TODOS, "", false),
        101 => shortcut("TODO_DELETE", Mods::Cmd, "D", "Delete the highlighted task", "Delete", G_TODOS, "", false),
        102 => shortcut("TODO_CLEAR", Mods::CmdShift, "D", "Clear every completed task", "Clear done", G_TODOS, "", false),
        103 => shortcut("TODO_CLOSE", Mods::Plain, "Esc", "Close", "Close", G_TODOS, "", false),
        104 => shortcut("CLIP_PASTE", Mods::Plain, "\u{21b5}", "Paste where you were", "Paste", G_CLIP, "", false),
        105 => shortcut("CLIP_NAV", Mods::Text, "\u{2191}\u{2193}", "Move through the history", "Move", G_CLIP, "", false),
        106 => shortcut("CLIP_TOGGLE", Mods::Plain, "Space", "Tick for a multi-entry paste", "Select", G_CLIP, "", false),
        107 => shortcut("CLIP_CLEAR", Mods::Cmd, "D", "Clear the history", "Clear all", G_CLIP, "", false),
        108 => shortcut("CLIP_CLOSE", Mods::Plain, "Esc", "Close", "Close", G_CLIP, "", false),
        109 => shortcut("FIND_NEXT", Mods::Text, "\u{21b5}  \u{2193}", "Next match", "next", G_FIND, "", true),
        110 => shortcut("FIND_PREV", Mods::Text, "\u{21e7}\u{21b5}  \u{2191}", "Previous match", "prev", G_FIND, "", true),
        111 => shortcut("FIND_REPLACE_TOGGLE", Mods::Cmd, "R", "Show / hide the replace field", "replace", G_FIND, "", true),
        112 => shortcut("FIND_SWITCH_FIELD", Mods::Plain, "Tab", "Switch between the find and replace fields", "", G_FIND, "", true),
        113 => shortcut("FIND_REPLACE_ONE", Mods::Plain, "\u{21b5}", "Replace this match (from the replace field)", "replace", G_FIND, "", true),
        114 => shortcut("FIND_REPLACE_ALL", Mods::Shift, "\u{21b5}", "Replace every match", "all", G_FIND, "", true),
        115 => shortcut("FIND_CLOSE", Mods::Plain, "Esc", "Close find", "close", G_FIND, "", true),
        116 => shortcut("SET_SECTION", Mods::Text, "\u{2191} \u{2193}  Tab", "Switch section", "Section", G_SETTINGS, "", false),
        117 => shortcut("SET_ADJUST", Mods::Text, "\u{2190} \u{2192}  + \u{2212}", "Adjust value", "Change", G_SETTINGS, "", false),
        118 => shortcut("SET_CLOSE", Mods::Text, "Esc / \u{21b5}", "Close", "Close", G_SETTINGS, "", false),
        119 => shortcut("REC_NAV", Mods::Text, "\u{2191}\u{2193}", "Navigate", "Move", G_RECENT, "", false),
        120 => shortcut("REC_TOGGLE", Mods::Plain, "Space", "Toggle selection", "Check", G_RECENT, "", false),
        121 => shortcut("REC_OPEN", Mods::Plain, "\u{21b5}", "Open", "Open", G_RECENT, "", false),
        122 => shortcut("REC_REMOVE", Mods::Text, "\u{232b}", "Remove from the list", "Remove", G_RECENT, "", false),
        123 => shortcut("REC_CLOSE", Mods::Plain, "Esc", "Close", "Close", G_RECENT, "", false),
        124 => shortcut("HELP_SCROLL", Mods::Text, "\u{2191}\u{2193}", "Scroll", "Scroll", G_NONE, "", false),
        125 => shortcut("HELP_PAGE", Mods::Text, "PgUp/Dn", "Page", "Page", G_NONE, "", false),
        _ => shortcut("HELP_CLOSE", Mods::Plain, "Esc", "Close", "Close", G_NONE, "", false),
    }
}

/// Row `i` of the table.
pub fn row_at(i: usize) -> (r: Shortcut)
    requires
        i < KEY_COUNT,
    ensures
        r == row(i),
{
    proof {
        reveal(row);
    }
    match i {
        0 => shortcut("FILES_OPEN", Mods::Alt, "F", "Open files", "Files", G_GLOBAL, "", true),
        1 => shortcut("FOLDER_OPEN", Mods::Cmd, "O", "Open folder\u{2026}", "Open other\u{2026}", G_GLOBAL, "", false),
        2 => shortcut("RECENT_OPEN", Mods::Alt, "O", "Recent folders", "", G_GLOBAL, "", false),
        3 => shortcut("SEARCH_FILES_OPEN", Mods::CmdShift, "F", "Search in files", "Search files", G_GLOBAL, "", true),
        4 => shortcut("TERMINAL_TOGGLE", Mods::Alt, "T", "Toggle terminal", "Term", G_GLOBAL, "", true),
        5 => shortcut("WORD_WRAP", Mods::Alt, "Z", "Toggle word wrap", "Wrap", G_GLOBAL, "", false),
        6 => shortcut("TODOS_OPEN", Mods::Alt, "D", "To-do list", "To-do", G_GLOBAL, "", false),
        7 => shortcut("CLIP_OPEN", Mods::Alt, "V", "Clipboard history", "Clipboard", G_GLOBAL, "", false),
        8 => shortcut("SETTINGS_OPEN", Mods::Cmd, ",", "Settings", "Settings", G_GLOBAL, "", false),
        9 => shortcut("QUIT", Mods::Cmd, "Q", "Quit", "Quit", G_GLOBAL, "", false),
        10 => shortcut("HELP", Mods::Plain, "F1", "This shortcuts list", "Shortcuts", G_GLOBAL, "", false),
        11 => shortcut("EDITOR_SAVE", Mods::Cmd, "S", "Save", "Save", G_EDITOR_FILES, "save", true),
        12 => shortcut("EDITOR_SAVE_ALL", Mods::CmdShift, "S", "Save all", "Save all", G_EDITOR_FILES, "save", true),
        13 => shortcut("EDITOR_CLOSE", Mods::Cmd, "W", "Close tab", "Close", G_EDITOR_FILES, "close", true),
        14 => shortcut("EDITOR_CLOSE_ALL", Mods::CmdShift, "W", "Close all", "Close all", G_EDITOR_FILES, "close", true),
        15 => shortcut("EDITOR_REOPEN", Mods::CmdShift, "T", "Reopen closed tab", "Reopen", G_EDITOR_FILES, "", true),
        16 => shortcut("FIND_OPEN", Mods::Cmd, "F", "Find in file", "Find", G_EDITOR_FILES, "", true),
        17 => shortcut("EDITOR_SPLIT", Mods::Cmd, "\\", "Split / unsplit view", "Split", G_EDITOR_FILES, "", true),
        18 => shortcut("TAB_NEXT", Mods::Ctrl, "Tab", "Next tab", "Switch", G_EDITOR_FILES, "tab", true),
        19 => shortcut("TAB_PREV", Mods::CtrlShift, "Tab", "previous", "", G_EDITOR_FILES, "tab", true),
        20 => shortcut("TAB_MOVE_LEFT", Mods::Ctrl, "<", "Move tab left", "", G_EDITOR_FILES, "tabmv", true),
        21 => shortcut("TAB_MOVE_RIGHT", Mods::Ctrl, ">", "right", "", G_EDITOR_FILES, "tabmv", true),
        22 => shortcut("TAB_MOVE_HINT", Mods::Text, "\u{2303}\u{21e7}\u{2194}", "Move tab left \u{b7} right", "Move tab", G_NONE, "", true),
        23 => shortcut("EDITOR_COPY", Mods::Cmd, "C", "Copy", "Copy", G_EDITOR_FILES, "clip", true),
        24 => shortcut("EDITOR_CUT", Mods::Cmd, "X", "Cut", "Cut", G_EDITOR_FILES, "clip", true),
        25 => shortcut("EDITOR_PASTE", Mods::Cmd, "V", "Paste", "Paste", G_EDITOR_FILES, "clip", true),
        26 => shortcut("EDITOR_UNDO", Mods::Cmd, "Z", "Undo", "Undo", G_EDITOR_FILES, "undo", true),
        27 => shortcut("EDITOR_REDO", Mods::CmdShift, "Z", "Redo", "Redo", G_EDITOR_FILES, "undo", true),
        28 => shortcut("EDITOR_SELECT_ALL", Mods::Cmd, "A", "Select all", "Select all", G_EDITOR_FILES, "", true),
        29 => shortcut("EDITOR_COPY_PATH", Mods::CmdShift, "C", "Copy path", "Copy path", G_EDITOR_FILES, "path", true),
        30 => shortcut("EDITOR_COPY_REL", Mods::CmdShift, "R", "Relative path", "", G_EDITOR_FILES, "path", true),
        31 => shortcut("CURSOR_MOVE", Mods::Text, "\u{2190} \u{2192} \u{2191} \u{2193}", "Move the cursor", "", G_EDITOR_CURSOR, "", true),
        32 => shortcut("CURSOR_EXTEND", Mods::Text, "\u{21e7} + any move below", "Extend the selection (mark text)", "", G_EDITOR_CURSOR, "", true),
        33 => shortcut("CURSOR_SELECT", Mods::Text, "\u{21e7}\u{2190}\u{2191}\u{2193}\u{2192}", "Mark text", "Select", G_NONE, "", true),
        34 => shortcut("CURSOR_HOME_END", Mods::Text, "Home  End", "Line start \u{b7} end", "", G_EDITOR_CURSOR, "", true),
        35 => shortcut("CURSOR_LINE_START", Mods::Cmd, "\u{2190}", "Line start", "", G_EDITOR_CURSOR, "line", true),
        36 => shortcut("CURSOR_LINE_END", Mods::Cmd, "\u{2192}", "end", "", G_EDITOR_CURSOR, "line", true),
        37 => shortcut("CURSOR_WORD_LEFT", Mods::Alt, "\u{2190}", "Word left", "", G_EDITOR_CURSOR, "word", true),
        38 => shortcut("CURSOR_WORD_RIGHT", Mods::Alt, "\u{2192}", "right", "", G_EDITOR_CURSOR, "word", true),
        39 => shortcut("CURSOR_DOC_START", Mods::Cmd, "\u{2191}", "Document start", "", G_EDITOR_CURSOR, "doc", true),
        40 => shortcut("CURSOR_DOC_END", Mods::Cmd, "\u{2193}", "end", "", G_EDITOR_CURSOR, "doc", true),
        41 => shortcut("DELETE_WORD", Mods::Alt, "\u{232b}", "Delete word", "", G_EDITOR_CURSOR, "del", true),
        42 => shortcut("DELETE_LINE_START", Mods::Cmd, "\u{232b}", "to line start", "", G_EDITOR_CURSOR, "del", true),
        43 => shortcut("INDENT", Mods::Text, "Tab  \u{21e7}Tab", "Indent \u{b7} outdent selection", "", G_EDITOR_CURSOR, "", true),
        44 => shortcut("MULTI_CURSOR", Mods::Cmd, "D", "Add caret at next match (multi-cursor)", "Multi-cursor", G_EDITOR_CURSOR, "", true),
        45 => shortcut("CARET_ABOVE", Mods::Text, "\u{2318}\u{2325}\u{2191}  \u{2318}\u{2325}\u{2193}", "Add caret above \u{b7} below", "Add caret", G_EDITOR_CURSOR, "", true),
        46 => shortcut("CARET_COLLAPSE", Mods::Plain, "Esc", "Collapse to one caret", "One caret", G_EDITOR_CURSOR, "", true),
        47 => shortcut("FD_NAV", Mods::Text, "\u{2191}\u{2193}", "Navigate", "Move", G_FILES, "", true),
        48 => shortcut("FD_EXPAND", Mods::Plain, "\u{2192}", "Expand folder", "Expand", G_FILES, "fdtree", true),
        49 => shortcut("FD_COLLAPSE", Mods::Plain, "\u{2190}", "collapse folder", "Collapse", G_FILES, "fdtree", true),
        50 => shortcut("FD_OPEN", Mods::Plain, "\u{21b5}", "Open file / fold folder", "Open", G_FILES, "", true),
        51 => shortcut("FD_TAB_IN", Mods::Plain, "Tab", "Search into folder", "Select", G_FILES, "fdtab", true),
        52 => shortcut("FD_TAB_OUT", Mods::Shift, "Tab", "out of folder", "Out", G_FILES, "fdtab", true),
        53 => shortcut("FD_NEW_FILE", Mods::Cmd, "N", "New file", "New File", G_FILES, "", true),
        54 => shortcut("FD_NEW_FOLDER", Mods::AltShift, "N", "New folder", "New Folder", G_FILES, "", true),
        55 => shortcut("FD_RENAME", Mods::Cmd, "R", "Rename", "Rename", G_FILES, "", true),
        56 => shortcut("FD_DELETE", Mods::Cmd, "D", "Delete", "Delete", G_FILES, "", true),
        57 => shortcut("FD_COPY_PATH", Mods::CmdShift, "C", "Copy path", "Copy Path", G_FILES, "fdpath", true),
        58 => shortcut("FD_COPY_REL", Mods::CmdShift, "R", "Relative path", "Rel Path", G_FILES, "fdpath", true),
        59 => shortcut("FD_REVEAL", Mods::Alt, "R", "Reveal in Finder", "Reveal in Finder", G_FILES, "", true),
        60 => shortcut("FD_JUNK", Mods::Alt, "H", "Search: show / hide node_modules, build\u{2026}", "Hidden", G_FILES, "", true),
        61 => shortcut("FD_BACKSPACE", Mods::Text, "\u{232b}", "Delete query / out of folder", "", G_FILES, "", true),
        62 => shortcut("FD_TYPE", Mods::Text, "type\u{2026}", "Search files", "", G_FILES, "", true),
        63 => shortcut("FD_CLOSE", Mods::Plain, "Esc", "Close", "Close", G_FILES, "", true),
        64 => shortcut("SF_TYPE", Mods::Text, "type\u{2026}", "Edit query \u{2014} searches automatically", "", G_SEARCH, "", true),
        65 => shortcut("SF_NAV", Mods::Text, "\u{2191}\u{2193}", "Navigate results", "Move", G_SEARCH, "", true),
        66 => shortcut("SF_OPEN", Mods::Plain, "\u{21b5}", "Open selected result", "Open", G_SEARCH, "", true),
        67 => shortcut("SF_CLOSE", Mods::Plain, "Esc", "Close", "Close", G_SEARCH, "", true),
        68 => shortcut("TERM_NEXT", Mods::Ctrl, "Tab", "Next terminal", "Next", G_TERMINAL, "tnav", true),
        69 => shortcut("TERM_PREV", Mods::CtrlShift, "Tab", "previous", "Prev", G_TERMINAL, "tnav", true),
        70 => shortcut("TERM_NEW", Mods::Alt, "N", "New terminal", "New", G_TERMINAL, "", true),
        71 => shortcut("TERM_CLOSE", Mods::Alt, "W", "Close terminal", "Close", G_TERMINAL, "", true),
        72 => shortcut("TERM_GRID", Mods::Alt, "G", "Grid layout (click a tile to switch)", "Grid", G_TERMINAL, "", true),
        73 => shortcut("TERM_PICKER", Mods::Alt, "K", "Quick-switch terminal (type to filter)", "Switch\u{2026}", G_TERMINAL, "", true),
        74 => shortcut("TERM_JUMP", Mods::Alt, "1-9", "Jump to terminal N", "Jump to tab", G_TERMINAL, "", true),
        75 => shortcut("TERM_MOVE", Mods::Text, "\u{2303}\u{21e7}\u{2194}", "Move terminal left \u{b7} right", "Move", G_TERMINAL, "", true),
        76 => shortcut("TERM_WORD", Mods::Text, "\u{2325}\u{2190}\u{2192} \u{2303}\u{2190}\u{2192}", "Shell cursor by word", "Word", G_TERMINAL, "", true),
        77 => shortcut("TERM_LINE", Mods::Text, "\u{2318}\u{2190}  \u{2318}\u{2192}", "Cursor to line start \u{b7} end", "", G_TERMINAL, "", true),
        78 => shortcut("TERM_DEL", Mods::Text, "\u{2325}\u{232b} \u{2318}\u{232b}", "Delete word \u{b7} to line start", "Word del", G_TERMINAL, "", true),
        79 => shortcut("TERM_COPY_MODE", Mods::Alt, "\u{2191}", "Copy mode (free cursor + select)", "Select mode", G_TERMINAL, "", true),
        80 => shortcut("TERM_COPY", Mods::SuperShift, "C", "Copy selection", "Copy", G_TERMINAL, "tclip", true),
        81 => shortcut("TERM_PASTE", Mods::SuperShift, "V", "Paste", "Paste", G_TERMINAL, "tclip", true),
        82 => shortcut("TERM_SCROLL", Mods::Text, "\u{21e7}PgUp/Dn  fn\u{2191}/\u{2193}", "Scroll history", "Scroll", G_TERMINAL, "", true),
        83 => shortcut("TERM_MARK", Mods::Text, "\u{21e7}\u{2190} \u{2191} \u{2192} \u{2193}", "Mark text (\u{21e7}\u{2325} by word)", "Mark", G_TERMINAL, "", true),
        84 => shortcut("TERM_MOUSE", Mods::Text, "Drag \u{b7} \u{21e7}Click", "Select w/ mouse (\u{21e7}Click extends)", "", G_TERMINAL, "", true),
        85 => shortcut("TERM_SOFT_NL", Mods::Text, "\u{2325}\u{21b5}  \u{21e7}\u{21b5}", "Soft newline (don't submit)", "", G_TERMINAL, "", true),
        86 => shortcut("PICK_NAV", Mods::Text, "\u{2191}\u{2193}", "Move through the open terminals", "Move", G_PICKER, "", true),
        87 => shortcut("PICK_OPEN", Mods::Plain, "\u{21b5}", "Switch to it", "Switch", G_PICKER, "", true),
        88 => shortcut("PICK_TYPE", Mods::Text, "type\u{2026}", "Filter by folder \u{b7} command", "Filter", G_PICKER, "", true),
        89 => shortcut("PICK_CLOSE", Mods::Plain, "Esc", "Close", "Close", G_PICKER, "", true),
        90 => shortcut("CM_MOVE", Mods::Text, "\u{2190}\u{2191}\u{2193}\u{2192} / hjkl", "Move cursor", "Move", G_COPY, "", true),
        91 => shortcut("CM_MARK", Mods::Text, "\u{21e7} + arrows", "Mark / extend selection", "Mark", G_COPY, "", true),
        92 => shortcut("CM_WORD", Mods::Text, "\u{2325}\u{2190}  \u{2325}\u{2192}", "Move by word", "Word", G_COPY, "", true),
        93 => shortcut("CM_COPY", Mods::Text, "\u{21b5} / y", "Copy & exit", "Copy", G_COPY, "", true),
        94 => shortcut("CM_SCROLL", Mods::Text, "\u{21e7}PgUp/Dn", "Scroll while selecting", "Scroll", G_COPY, "", true),
        95 => shortcut("CM_EXIT", Mods::Text, "Esc / q", "Exit copy mode", "Exit", G_COPY, "", true),
        96 => shortcut("TODO_ADD", Mods::Plain, "\u{21b5}", "Add the typed task", "Add", G_TODOS, "", false),
        97 => shortcut("TODO_TOGGLE", Mods::Plain, "Space", "Toggle the highlighted task", "Toggle", G_TODOS, "", false),
        98 => shortcut("TODO_NAV", Mods::Text, "\u{2191}\u{2193}", "Move through the list", "Move", G_TODOS, "", false),
        99 => shortcut("TODO_PASTE", Mods::Cmd, "V", "Paste a list \u{2014} one task per line", "Paste list", G_TODOS, "", false),
        100 => shortcut("TODO_EDIT", Mods::Cmd, "E", "Edit the raw markdown file in a tab", "Edit", G_TODOS, "", false),
        101 => shortcut("TODO_DELETE", Mods::Cmd, "D", "Delete the highlighted task", "Delete", G_TODOS, "", false),
        102 => shortcut("TODO_CLEAR", Mods::CmdShift, "D", "Clear every completed task", "Clear done", G_TODOS, "", false),
        103 => shortcut("TODO_CLOSE", Mods::Plain, "Esc", "Close", "Close", G_TODOS, "", false),
        104 => shortcut("CLIP_PASTE", Mods::Plain, "\u{21b5}", "Paste where you were", "Paste", G_CLIP, "", false),
        105 => shortcut("CLIP_NAV", Mods::Text, "\u{2191}\u{2193}", "Move through the history", "Move", G_CLIP, "", false),
        106 => shortcut("CLIP_TOGGLE", Mods::Plain, "Space", "Tick for a multi-entry paste", "Select", G_CLIP, "", false),
        107 => shortcut("CLIP_CLEAR", Mods::Cmd, "D", "Clear the history", "Clear all", G_CLIP, "", false),
        108 => shortcut("CLIP_CLOSE", Mods::Plain, "Esc", "Close", "Close", G_CLIP, "", false),
        109 => shortcut("FIND_NEXT", Mods::Text, "\u{21b5}  \u{2193}", "Next match", "next", G_FIND, "", true),
        110 => shortcut("FIND_PREV", Mods::Text, "\u{21e7}\u{21b5}  \u{2191}", "Previous match", "prev", G_FIND, "", true),
        111 => shortcut("FIND_REPLACE_TOGGLE", Mods::Cmd, "R", "Show / hide the replace field", "replace", G_FIND, "", true),
        112 => shortcut("FIND_SWITCH_FIELD", Mods::Plain, "Tab", "Switch between the find and replace fields", "", G_FIND, "", true),
        113 => shortcut("FIND_REPLACE_ONE", Mods::Plain, "\u{21b5}", "Replace this match (from the replace field)", "replace", G_FIND, "", true),
        114 => shortcut("FIND_REPLACE_ALL", Mods::Shift, "\u{21b5}", "Replace every match", "all", G_FIND, "", true),
        115 => shortcut("FIND_CLOSE", Mods::Plain, "Esc", "Close find", "close", G_FIND, "", true),
        116 => shortcut("SET_SECTION", Mods::Text, "\u{2191} \u{2193}  Tab", "Switch section", "Section", G_SETTINGS, "", false),
        117 => shortcut("SET_ADJUST", Mods::Text, "\u{2190} \u{2192}  + \u{2212}", "Adjust value", "Change", G_SETTINGS, "", false),
        118 => shortcut("SET_CLOSE", Mods::Text, "Esc / \u{21b5}", "Close", "Close", G_SETTINGS, "", false),
        119 => shortcut("REC_NAV", Mods::Text, "\u{2191}\u{2193}", "Navigate", "Move", G_RECENT, "", false),
        120 => shortcut("REC_TOGGLE", Mods::Plain, "Space", "Toggle selection", "Check", G_RECENT, "", false),
        121 => shortcut("REC_OPEN", Mods::Plain, "\u{21b5}", "Open", "Open", G_RECENT, "", false),
        122 => shortcut("REC_REMOVE", Mods::Text, "\u{232b}", "Remove from the list", "Remove", G_RECENT, "", false),
        123 => shortcut("REC_CLOSE", Mods::Plain, "Esc", "Close", "Close", G_RECENT, "", false),
        124 => shortcut("HELP_SCROLL", Mods::Text, "\u{2191}\u{2193}", "Scroll", "Scroll", G_NONE, "", false),
        125 => shortcut("HELP_PAGE", Mods::Text, "PgUp/Dn", "Page", "Page", G_NONE, "", false),
        _ => shortcut("HELP_CLOSE", Mods::Plain, "Esc", "Close", "Close", G_NONE, "", false),
    }
}

} // verus!
