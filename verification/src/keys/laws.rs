//! What holds of every row of the key table.

use crate::keys::table::{row, KEY_COUNT};
use crate::keys::{chord_of, footer_label, found, found_from};
use vstd::prelude::*;

verus! {

/// The row that an id leads to, told by a few of its characters.
spec fn place_of(id: Seq<char>) -> usize {
    if id[3] == 'B' {
        61
    } else if id[3] == 'C' {
        if id.len() == 7 {
            93
        } else if id.len() == 8 {
            if id[0] == 'F' {
                63
            } else {
                67
            }
        } else if id.len() == 11 {
            if id[5] == 'L' {
                49
            } else {
                58
            }
        } else {
            57
        }
    } else if id[3] == 'D' {
        if id[7] == 'A' {
            5
        } else if id[7] == 'E' {
            if id[5] == 'O' {
                16
            } else {
                110
            }
        } else if id[7] == 'I' {
            112
        } else if id[7] == 'O' {
            if id[1] == 'I' {
                115
            } else {
                1
            }
        } else if id[7] == 'P' {
            if id[13] == 'A' {
                114
            } else if id[13] == 'O' {
                113
            } else {
                111
            }
        } else if id[7] == 'T' {
            56
        } else {
            109
        }
    } else if id[3] == 'E' {
        if id[0] == 'C' {
            if id[6] == 'A' {
                45
            } else if id[6] == 'C' {
                46
            } else {
                95
            }
        } else if id[0] == 'D' {
            if id[7] == 'L' {
                42
            } else {
                41
            }
        } else if id[0] == 'F' {
            if id[1] == 'D' {
                48
            } else {
                0
            }
        } else if id[0] == 'I' {
            43
        } else {
            2
        }
    } else if id[3] == 'J' {
        60
    } else if id[3] == 'K' {
        if id[5] == 'C' {
            89
        } else if id[5] == 'N' {
            86
        } else if id[5] == 'O' {
            87
        } else {
            88
        }
    } else if id[3] == 'M' {
        if id[5] == 'C' {
            if id.len() == 9 {
                80
            } else if id.len() == 10 {
                71
            } else {
                79
            }
        } else if id[5] == 'D' {
            78
        } else if id[5] == 'G' {
            72
        } else if id[5] == 'J' {
            74
        } else if id[5] == 'L' {
            77
        } else if id[5] == 'M' {
            if id[7] == 'R' {
                83
            } else if id[7] == 'U' {
                84
            } else {
                75
            }
        } else if id[5] == 'N' {
            if id[7] == 'L' {
                4
            } else if id[7] == 'W' {
                70
            } else {
                68
            }
        } else if id[5] == 'P' {
            if id[6] == 'A' {
                81
            } else if id[6] == 'I' {
                73
            } else {
                69
            }
        } else if id[5] == 'R' {
            91
        } else if id[5] == 'S' {
            if id[6] == 'C' {
                82
            } else {
                85
            }
        } else if id[5] == 'V' {
            90
        } else {
            76
        }
    } else if id[3] == 'N' {
        if id[4] == 'A' {
            if id[0] == 'F' {
                47
            } else {
                65
            }
        } else {
            if id[8] == 'I' {
                53
            } else {
                54
            }
        }
    } else if id[3] == 'O' {
        if id[6] == 'A' {
            if id[5] == 'N' {
                98
            } else {
                99
            }
        } else if id[6] == 'D' {
            if id[5] == 'A' {
                96
            } else {
                100
            }
        } else if id[6] == 'E' {
            101
        } else if id[6] == 'L' {
            if id[7] == 'E' {
                102
            } else {
                103
            }
        } else if id[6] == 'N' {
            if id[0] == 'F' {
                50
            } else {
                66
            }
        } else {
            if id[4] == 'S' {
                6
            } else {
                97
            }
        }
    } else if id[3] == 'P' {
        if id.len() == 4 {
            10
        } else if id.len() == 8 {
            105
        } else if id.len() == 9 {
            if id[0] == 'C' {
                7
            } else {
                125
            }
        } else if id.len() == 10 {
            if id[7] == 'E' {
                107
            } else if id[7] == 'O' {
                if id[0] == 'C' {
                    108
                } else {
                    126
                }
            } else {
                104
            }
        } else {
            if id[0] == 'C' {
                106
            } else {
                124
            }
        }
    } else if id[3] == 'R' {
        if id[5] == 'H' {
            3
        } else if id[5] == 'N' {
            55
        } else {
            59
        }
    } else if id[3] == 'S' {
        if id.len() == 9 {
            94
        } else if id.len() == 11 {
            31
        } else if id.len() == 13 {
            if id[7] == 'E' {
                32
            } else {
                33
            }
        } else if id.len() == 14 {
            40
        } else if id.len() == 15 {
            if id[7] == 'H' {
                34
            } else {
                36
            }
        } else if id.len() == 16 {
            if id[7] == 'D' {
                39
            } else {
                37
            }
        } else {
            if id[7] == 'L' {
                35
            } else {
                38
            }
        }
    } else if id[3] == 'T' {
        if id.len() == 4 {
            9
        } else if id.len() == 7 {
            if id[0] == 'F' {
                62
            } else {
                64
            }
        } else if id.len() == 9 {
            51
        } else if id.len() == 10 {
            if id[0] == 'E' {
                24
            } else {
                52
            }
        } else if id.len() == 11 {
            if id[7] == 'C' {
                23
            } else if id[7] == 'R' {
                27
            } else if id[7] == 'S' {
                11
            } else {
                26
            }
        } else if id.len() == 12 {
            if id[7] == 'C' {
                13
            } else if id[7] == 'P' {
                25
            } else if id[7] == 'S' {
                17
            } else {
                44
            }
        } else if id.len() == 13 {
            if id[0] == 'E' {
                15
            } else {
                8
            }
        } else if id.len() == 15 {
            if id[7] == 'C' {
                30
            } else {
                12
            }
        } else if id.len() == 16 {
            if id[8] == 'L' {
                14
            } else {
                29
            }
        } else {
            28
        }
    } else if id[3] == 'W' {
        92
    } else {
        if id[4] == 'A' {
            117
        } else if id[4] == 'C' {
            if id[0] == 'R' {
                123
            } else {
                118
            }
        } else if id[4] == 'M' {
            if id[9] == 'H' {
                22
            } else if id[9] == 'L' {
                20
            } else {
                21
            }
        } else if id[4] == 'N' {
            if id[0] == 'R' {
                119
            } else {
                18
            }
        } else if id[4] == 'O' {
            121
        } else if id[4] == 'P' {
            19
        } else if id[4] == 'R' {
            122
        } else if id[4] == 'S' {
            116
        } else {
            120
        }
    }
}

/// Row `i` says what it must: its id leads back to it, neither its key nor its
/// label is empty, and its short label is short.
spec fn tells(i: usize) -> bool {
    &&& place_of(row(i).id@) == i
    &&& row(i).key@.len() > 0
    &&& row(i).label@.len() > 0
    &&& row(i).short@.len() <= 18
}

proof fn lemma_rows_from_0(i: usize)
    requires
        0 <= i < 8,
    ensures
        tells(i),
{
    reveal(row);
    if i == 0 {
        reveal_strlit("FILES_OPEN");
        reveal_strlit("F");
        reveal_strlit("Open files");
        reveal_strlit("Files");
    } else if i == 1 {
        reveal_strlit("FOLDER_OPEN");
        reveal_strlit("O");
        reveal_strlit("Open folder\u{2026}");
        reveal_strlit("Open other\u{2026}");
    } else if i == 2 {
        reveal_strlit("RECENT_OPEN");
        reveal_strlit("O");
        reveal_strlit("Recent folders");
        reveal_strlit("");
    } else if i == 3 {
        reveal_strlit("SEARCH_FILES_OPEN");
        reveal_strlit("F");
        reveal_strlit("Search in files");
        reveal_strlit("Search files");
    } else if i == 4 {
        reveal_strlit("TERMINAL_TOGGLE");
        reveal_strlit("T");
        reveal_strlit("Toggle terminal");
        reveal_strlit("Term");
    } else if i == 5 {
        reveal_strlit("WORD_WRAP");
        reveal_strlit("Z");
        reveal_strlit("Toggle word wrap");
        reveal_strlit("Wrap");
    } else if i == 6 {
        reveal_strlit("TODOS_OPEN");
        reveal_strlit("D");
        reveal_strlit("To-do list");
        reveal_strlit("To-do");
    } else {
        reveal_strlit("CLIP_OPEN");
        reveal_strlit("V");
        reveal_strlit("Clipboard history");
        reveal_strlit("Clipboard");
    }
}

proof fn lemma_rows_from_8(i: usize)
    requires
        8 <= i < 16,
    ensures
        tells(i),
{
    reveal(row);
    if i == 8 {
        reveal_strlit("SETTINGS_OPEN");
        reveal_strlit(",");
        reveal_strlit("Settings");
    } else if i == 9 {
        reveal_strlit("QUIT");
        reveal_strlit("Q");
        reveal_strlit("Quit");
    } else if i == 10 {
        reveal_strlit("HELP");
        reveal_strlit("F1");
        reveal_strlit("This shortcuts list");
        reveal_strlit("Shortcuts");
    } else if i == 11 {
        reveal_strlit("EDITOR_SAVE");
        reveal_strlit("S");
        reveal_strlit("Save");
    } else if i == 12 {
        reveal_strlit("EDITOR_SAVE_ALL");
        reveal_strlit("S");
        reveal_strlit("Save all");
    } else if i == 13 {
        reveal_strlit("EDITOR_CLOSE");
        reveal_strlit("W");
        reveal_strlit("Close tab");
        reveal_strlit("Close");
    } else if i == 14 {
        reveal_strlit("EDITOR_CLOSE_ALL");
        reveal_strlit("W");
        reveal_strlit("Close all");
    } else {
        reveal_strlit("EDITOR_REOPEN");
        reveal_strlit("T");
        reveal_strlit("Reopen closed tab");
        reveal_strlit("Reopen");
    }
}

proof fn lemma_rows_from_16(i: usize)
    requires
        16 <= i < 24,
    ensures
        tells(i),
{
    reveal(row);
    if i == 16 {
        reveal_strlit("FIND_OPEN");
        reveal_strlit("F");
        reveal_strlit("Find in file");
        reveal_strlit("Find");
    } else if i == 17 {
        reveal_strlit("EDITOR_SPLIT");
        reveal_strlit("\\");
        reveal_strlit("Split / unsplit view");
        reveal_strlit("Split");
    } else if i == 18 {
        reveal_strlit("TAB_NEXT");
        reveal_strlit("Tab");
        reveal_strlit("Next tab");
        reveal_strlit("Switch");
    } else if i == 19 {
        reveal_strlit("TAB_PREV");
        reveal_strlit("Tab");
        reveal_strlit("previous");
        reveal_strlit("");
    } else if i == 20 {
        reveal_strlit("TAB_MOVE_LEFT");
        reveal_strlit("<");
        reveal_strlit("Move tab left");
        reveal_strlit("");
    } else if i == 21 {
        reveal_strlit("TAB_MOVE_RIGHT");
        reveal_strlit(">");
        reveal_strlit("right");
        reveal_strlit("");
    } else if i == 22 {
        reveal_strlit("TAB_MOVE_HINT");
        reveal_strlit("\u{2303}\u{21e7}\u{2194}");
        reveal_strlit("Move tab left \u{b7} right");
        reveal_strlit("Move tab");
    } else {
        reveal_strlit("EDITOR_COPY");
        reveal_strlit("C");
        reveal_strlit("Copy");
    }
}

proof fn lemma_rows_from_24(i: usize)
    requires
        24 <= i < 32,
    ensures
        tells(i),
{
    reveal(row);
    if i == 24 {
        reveal_strlit("EDITOR_CUT");
        reveal_strlit("X");
        reveal_strlit("Cut");
    } else if i == 25 {
        reveal_strlit("EDITOR_PASTE");
        reveal_strlit("V");
        reveal_strlit("Paste");
    } else if i == 26 {
        reveal_strlit("EDITOR_UNDO");
        reveal_strlit("Z");
        reveal_strlit("Undo");
    } else if i == 27 {
        reveal_strlit("EDITOR_REDO");
        reveal_strlit("Z");
        reveal_strlit("Redo");
    } else if i == 28 {
        reveal_strlit("EDITOR_SELECT_ALL");
        reveal_strlit("A");
        reveal_strlit("Select all");
    } else if i == 29 {
        reveal_strlit("EDITOR_COPY_PATH");
        reveal_strlit("C");
        reveal_strlit("Copy path");
    } else if i == 30 {
        reveal_strlit("EDITOR_COPY_REL");
        reveal_strlit("R");
        reveal_strlit("Relative path");
        reveal_strlit("");
    } else {
        reveal_strlit("CURSOR_MOVE");
        reveal_strlit("\u{2190} \u{2192} \u{2191} \u{2193}");
        reveal_strlit("Move the cursor");
        reveal_strlit("");
    }
}

proof fn lemma_rows_from_32(i: usize)
    requires
        32 <= i < 40,
    ensures
        tells(i),
{
    reveal(row);
    if i == 32 {
        reveal_strlit("CURSOR_EXTEND");
        reveal_strlit("\u{21e7} + any move below");
        reveal_strlit("Extend the selection (mark text)");
        reveal_strlit("");
    } else if i == 33 {
        reveal_strlit("CURSOR_SELECT");
        reveal_strlit("\u{21e7}\u{2190}\u{2191}\u{2193}\u{2192}");
        reveal_strlit("Mark text");
        reveal_strlit("Select");
    } else if i == 34 {
        reveal_strlit("CURSOR_HOME_END");
        reveal_strlit("Home  End");
        reveal_strlit("Line start \u{b7} end");
        reveal_strlit("");
    } else if i == 35 {
        reveal_strlit("CURSOR_LINE_START");
        reveal_strlit("\u{2190}");
        reveal_strlit("Line start");
        reveal_strlit("");
    } else if i == 36 {
        reveal_strlit("CURSOR_LINE_END");
        reveal_strlit("\u{2192}");
        reveal_strlit("end");
        reveal_strlit("");
    } else if i == 37 {
        reveal_strlit("CURSOR_WORD_LEFT");
        reveal_strlit("\u{2190}");
        reveal_strlit("Word left");
        reveal_strlit("");
    } else if i == 38 {
        reveal_strlit("CURSOR_WORD_RIGHT");
        reveal_strlit("\u{2192}");
        reveal_strlit("right");
        reveal_strlit("");
    } else {
        reveal_strlit("CURSOR_DOC_START");
        reveal_strlit("\u{2191}");
        reveal_strlit("Document start");
        reveal_strlit("");
    }
}

proof fn lemma_rows_from_40(i: usize)
    requires
        40 <= i < 48,
    ensures
        tells(i),
{
    reveal(row);
    if i == 40 {
        reveal_strlit("CURSOR_DOC_END");
        reveal_strlit("\u{2193}");
        reveal_strlit("end");
        reveal_strlit("");
    } else if i == 41 {
        reveal_strlit("DELETE_WORD");
        reveal_strlit("\u{232b}");
        reveal_strlit("Delete word");
        reveal_strlit("");
    } else if i == 42 {
        reveal_strlit("DELETE_LINE_START");
        reveal_strlit("\u{232b}");
        reveal_strlit("to line start");
        reveal_strlit("");
    } else if i == 43 {
        reveal_strlit("INDENT");
        reveal_strlit("Tab  \u{21e7}Tab");
        reveal_strlit("Indent \u{b7} outdent selection");
        reveal_strlit("");
    } else if i == 44 {
        reveal_strlit("MULTI_CURSOR");
        reveal_strlit("D");
        reveal_strlit("Add caret at next match (multi-cursor)");
        reveal_strlit("Multi-cursor");
    } else if i == 45 {
        reveal_strlit("CARET_ABOVE");
        reveal_strlit("\u{2318}\u{2325}\u{2191}  \u{2318}\u{2325}\u{2193}");
        reveal_strlit("Add caret above \u{b7} below");
        reveal_strlit("Add caret");
    } else if i == 46 {
        reveal_strlit("CARET_COLLAPSE");
        reveal_strlit("Esc");
        reveal_strlit("Collapse to one caret");
        reveal_strlit("One caret");
    } else {
        reveal_strlit("FD_NAV");
        reveal_strlit("\u{2191}\u{2193}");
        reveal_strlit("Navigate");
        reveal_strlit("Move");
    }
}

proof fn lemma_rows_from_48(i: usize)
    requires
        48 <= i < 56,
    ensures
        tells(i),
{
    reveal(row);
    if i == 48 {
        reveal_strlit("FD_EXPAND");
        reveal_strlit("\u{2192}");
        reveal_strlit("Expand folder");
        reveal_strlit("Expand");
    } else if i == 49 {
        reveal_strlit("FD_COLLAPSE");
        reveal_strlit("\u{2190}");
        reveal_strlit("collapse folder");
        reveal_strlit("Collapse");
    } else if i == 50 {
        reveal_strlit("FD_OPEN");
        reveal_strlit("\u{21b5}");
        reveal_strlit("Open file / fold folder");
        reveal_strlit("Open");
    } else if i == 51 {
        reveal_strlit("FD_TAB_IN");
        reveal_strlit("Tab");
        reveal_strlit("Search into folder");
        reveal_strlit("Select");
    } else if i == 52 {
        reveal_strlit("FD_TAB_OUT");
        reveal_strlit("Tab");
        reveal_strlit("out of folder");
        reveal_strlit("Out");
    } else if i == 53 {
        reveal_strlit("FD_NEW_FILE");
        reveal_strlit("N");
        reveal_strlit("New file");
        reveal_strlit("New File");
    } else if i == 54 {
        reveal_strlit("FD_NEW_FOLDER");
        reveal_strlit("N");
        reveal_strlit("New folder");
        reveal_strlit("New Folder");
    } else {
        reveal_strlit("FD_RENAME");
        reveal_strlit("R");
        reveal_strlit("Rename");
    }
}

proof fn lemma_rows_from_56(i: usize)
    requires
        56 <= i < 64,
    ensures
        tells(i),
{
    reveal(row);
    if i == 56 {
        reveal_strlit("FD_DELETE");
        reveal_strlit("D");
        reveal_strlit("Delete");
    } else if i == 57 {
        reveal_strlit("FD_COPY_PATH");
        reveal_strlit("C");
        reveal_strlit("Copy path");
        reveal_strlit("Copy Path");
    } else if i == 58 {
        reveal_strlit("FD_COPY_REL");
        reveal_strlit("R");
        reveal_strlit("Relative path");
        reveal_strlit("Rel Path");
    } else if i == 59 {
        reveal_strlit("FD_REVEAL");
        reveal_strlit("R");
        reveal_strlit("Reveal in Finder");
    } else if i == 60 {
        reveal_strlit("FD_JUNK");
        reveal_strlit("H");
        reveal_strlit("Search: show / hide node_modules, build\u{2026}");
        reveal_strlit("Hidden");
    } else if i == 61 {
        reveal_strlit("FD_BACKSPACE");
        reveal_strlit("\u{232b}");
        reveal_strlit("Delete query / out of folder");
        reveal_strlit("");
    } else if i == 62 {
        reveal_strlit("FD_TYPE");
        reveal_strlit("type\u{2026}");
        reveal_strlit("Search files");
        reveal_strlit("");
    } else {
        reveal_strlit("FD_CLOSE");
        reveal_strlit("Esc");
        reveal_strlit("Close");
    }
}

proof fn lemma_rows_from_64(i: usize)
    requires
        64 <= i < 72,
    ensures
        tells(i),
{
    reveal(row);
    if i == 64 {
        reveal_strlit("SF_TYPE");
        reveal_strlit("type\u{2026}");
        reveal_strlit("Edit query \u{2014} searches automatically");
        reveal_strlit("");
    } else if i == 65 {
        reveal_strlit("SF_NAV");
        reveal_strlit("\u{2191}\u{2193}");
        reveal_strlit("Navigate results");
        reveal_strlit("Move");
    } else if i == 66 {
        reveal_strlit("SF_OPEN");
        reveal_strlit("\u{21b5}");
        reveal_strlit("Open selected result");
        reveal_strlit("Open");
    } else if i == 67 {
        reveal_strlit("SF_CLOSE");
        reveal_strlit("Esc");
        reveal_strlit("Close");
    } else if i == 68 {
        reveal_strlit("TERM_NEXT");
        reveal_strlit("Tab");
        reveal_strlit("Next terminal");
        reveal_strlit("Next");
    } else if i == 69 {
        reveal_strlit("TERM_PREV");
        reveal_strlit("Tab");
        reveal_strlit("previous");
        reveal_strlit("Prev");
    } else if i == 70 {
        reveal_strlit("TERM_NEW");
        reveal_strlit("N");
        reveal_strlit("New terminal");
        reveal_strlit("New");
    } else {
        reveal_strlit("TERM_CLOSE");
        reveal_strlit("W");
        reveal_strlit("Close terminal");
        reveal_strlit("Close");
    }
}

proof fn lemma_rows_from_72(i: usize)
    requires
        72 <= i < 80,
    ensures
        tells(i),
{
    reveal(row);
    if i == 72 {
        reveal_strlit("TERM_GRID");
        reveal_strlit("G");
        reveal_strlit("Grid layout (click a tile to switch)");
        reveal_strlit("Grid");
    } else if i == 73 {
        reveal_strlit("TERM_PICKER");
        reveal_strlit("K");
        reveal_strlit("Quick-switch terminal (type to filter)");
        reveal_strlit("Switch\u{2026}");
    } else if i == 74 {
        reveal_strlit("TERM_JUMP");
        reveal_strlit("1-9");
        reveal_strlit("Jump to terminal N");
        reveal_strlit("Jump to tab");
    } else if i == 75 {
        reveal_strlit("TERM_MOVE");
        reveal_strlit("\u{2303}\u{21e7}\u{2194}");
        reveal_strlit("Move terminal left \u{b7} right");
        reveal_strlit("Move");
    } else if i == 76 {
        reveal_strlit("TERM_WORD");
        reveal_strlit("\u{2325}\u{2190}\u{2192} \u{2303}\u{2190}\u{2192}");
        reveal_strlit("Shell cursor by word");
        reveal_strlit("Word");
    } else if i == 77 {
        reveal_strlit("TERM_LINE");
        reveal_strlit("\u{2318}\u{2190}  \u{2318}\u{2192}");
        reveal_strlit("Cursor to line start \u{b7} end");
        reveal_strlit("");
    } else if i == 78 {
        reveal_strlit("TERM_DEL");
        reveal_strlit("\u{2325}\u{232b} \u{2318}\u{232b}");
        reveal_strlit("Delete word \u{b7} to line start");
        reveal_strlit("Word del");
    } else {
        reveal_strlit("TERM_COPY_MODE");
        reveal_strlit("\u{2191}");
        reveal_strlit("Copy mode (free cursor + select)");
        reveal_strlit("Select mode");
    }
}

proof fn lemma_rows_from_80(i: usize)
    requires
        80 <= i < 88,
    ensures
        tells(i),
{
    reveal(row);
    if i == 80 {
        reveal_strlit("TERM_COPY");
        reveal_strlit("C");
        reveal_strlit("Copy selection");
        reveal_strlit("Copy");
    } else if i == 81 {
        reveal_strlit("TERM_PASTE");
        reveal_strlit("V");
        reveal_strlit("Paste");
    } else if i == 82 {
        reveal_strlit("TERM_SCROLL");
        reveal_strlit("\u{21e7}PgUp/Dn  fn\u{2191}/\u{2193}");
        reveal_strlit("Scroll history");
        reveal_strlit("Scroll");
    } else if i == 83 {
        reveal_strlit("TERM_MARK");
        reveal_strlit("\u{21e7}\u{2190} \u{2191} \u{2192} \u{2193}");
        reveal_strlit("Mark text (\u{21e7}\u{2325} by word)");
        reveal_strlit("Mark");
    } else if i == 84 {
        reveal_strlit("TERM_MOUSE");
        reveal_strlit("Drag \u{b7} \u{21e7}Click");
        reveal_strlit("Select w/ mouse (\u{21e7}Click extends)");
        reveal_strlit("");
    } else if i == 85 {
        reveal_strlit("TERM_SOFT_NL");
        reveal_strlit("\u{2325}\u{21b5}  \u{21e7}\u{21b5}");
        reveal_strlit("Soft newline (don't submit)");
        reveal_strlit("");
    } else if i == 86 {
        reveal_strlit("PICK_NAV");
        reveal_strlit("\u{2191}\u{2193}");
        reveal_strlit("Move through the open terminals");
        reveal_strlit("Move");
    } else {
        reveal_strlit("PICK_OPEN");
        reveal_strlit("\u{21b5}");
        reveal_strlit("Switch to it");
        reveal_strlit("Switch");
    }
}

proof fn lemma_rows_from_88(i: usize)
    requires
        88 <= i < 96,
    ensures
        tells(i),
{
    reveal(row);
    if i == 88 {
        reveal_strlit("PICK_TYPE");
        reveal_strlit("type\u{2026}");
        reveal_strlit("Filter by folder \u{b7} command");
        reveal_strlit("Filter");
    } else if i == 89 {
        reveal_strlit("PICK_CLOSE");
        reveal_strlit("Esc");
        reveal_strlit("Close");
    } else if i == 90 {
        reveal_strlit("CM_MOVE");
        reveal_strlit("\u{2190}\u{2191}\u{2193}\u{2192} / hjkl");
        reveal_strlit("Move cursor");
        reveal_strlit("Move");
    } else if i == 91 {
        reveal_strlit("CM_MARK");
        reveal_strlit("\u{21e7} + arrows");
        reveal_strlit("Mark / extend selection");
        reveal_strlit("Mark");
    } else if i == 92 {
        reveal_strlit("CM_WORD");
        reveal_strlit("\u{2325}\u{2190}  \u{2325}\u{2192}");
        reveal_strlit("Move by word");
        reveal_strlit("Word");
    } else if i == 93 {
        reveal_strlit("CM_COPY");
        reveal_strlit("\u{21b5} / y");
        reveal_strlit("Copy & exit");
        reveal_strlit("Copy");
    } else if i == 94 {
        reveal_strlit("CM_SCROLL");
        reveal_strlit("\u{21e7}PgUp/Dn");
        reveal_strlit("Scroll while selecting");
        reveal_strlit("Scroll");
    } else {
        reveal_strlit("CM_EXIT");
        reveal_strlit("Esc / q");
        reveal_strlit("Exit copy mode");
        reveal_strlit("Exit");
    }
}

proof fn lemma_rows_from_96(i: usize)
    requires
        96 <= i < 104,
    ensures
        tells(i),
{
    reveal(row);
    if i == 96 {
        reveal_strlit("TODO_ADD");
        reveal_strlit("\u{21b5}");
        reveal_strlit("Add the typed task");
        reveal_strlit("Add");
    } else if i == 97 {
        reveal_strlit("TODO_TOGGLE");
        reveal_strlit("Space");
        reveal_strlit("Toggle the highlighted task");
        reveal_strlit("Toggle");
    } else if i == 98 {
        reveal_strlit("TODO_NAV");
        reveal_strlit("\u{2191}\u{2193}");
        reveal_strlit("Move through the list");
        reveal_strlit("Move");
    } else if i == 99 {
        reveal_strlit("TODO_PASTE");
        reveal_strlit("V");
        reveal_strlit("Paste a list \u{2014} one task per line");
        reveal_strlit("Paste list");
    } else if i == 100 {
        reveal_strlit("TODO_EDIT");
        reveal_strlit("E");
        reveal_strlit("Edit the raw markdown file in a tab");
        reveal_strlit("Edit");
    } else if i == 101 {
        reveal_strlit("TODO_DELETE");
        reveal_strlit("D");
        reveal_strlit("Delete the highlighted task");
        reveal_strlit("Delete");
    } else if i == 102 {
        reveal_strlit("TODO_CLEAR");
        reveal_strlit("D");
        reveal_strlit("Clear every completed task");
        reveal_strlit("Clear done");
    } else {
        reveal_strlit("TODO_CLOSE");
        reveal_strlit("Esc");
        reveal_strlit("Close");
    }
}

proof fn lemma_rows_from_104(i: usize)
    requires
        104 <= i < 112,
    ensures
        tells(i),
{
    reveal(row);
    if i == 104 {
        reveal_strlit("CLIP_PASTE");
        reveal_strlit("\u{21b5}");
        reveal_strlit("Paste where you were");
        reveal_strlit("Paste");
    } else if i == 105 {
        reveal_strlit("CLIP_NAV");
        reveal_strlit("\u{2191}\u{2193}");
        reveal_strlit("Move through the history");
        reveal_strlit("Move");
    } else if i == 106 {
        reveal_strlit("CLIP_TOGGLE");
        reveal_strlit("Space");
        reveal_strlit("Tick for a multi-entry paste");
        reveal_strlit("Select");
    } else if i == 107 {
        reveal_strlit("CLIP_CLEAR");
        reveal_strlit("D");
        reveal_strlit("Clear the history");
        reveal_strlit("Clear all");
    } else if i == 108 {
        reveal_strlit("CLIP_CLOSE");
        reveal_strlit("Esc");
        reveal_strlit("Close");
    } else if i == 109 {
        reveal_strlit("FIND_NEXT");
        reveal_strlit("\u{21b5}  \u{2193}");
        reveal_strlit("Next match");
        reveal_strlit("next");
    } else if i == 110 {
        reveal_strlit("FIND_PREV");
        reveal_strlit("\u{21e7}\u{21b5}  \u{2191}");
        reveal_strlit("Previous match");
        reveal_strlit("prev");
    } else {
        reveal_strlit("FIND_REPLACE_TOGGLE");
        reveal_strlit("R");
        reveal_strlit("Show / hide the replace field");
        reveal_strlit("replace");
    }
}

proof fn lemma_rows_from_112(i: usize)
    requires
        112 <= i < 120,
    ensures
        tells(i),
{
    reveal(row);
    if i == 112 {
        reveal_strlit("FIND_SWITCH_FIELD");
        reveal_strlit("Tab");
        reveal_strlit("Switch between the find and replace fields");
        reveal_strlit("");
    } else if i == 113 {
        reveal_strlit("FIND_REPLACE_ONE");
        reveal_strlit("\u{21b5}");
        reveal_strlit("Replace this match (from the replace field)");
        reveal_strlit("replace");
    } else if i == 114 {
        reveal_strlit("FIND_REPLACE_ALL");
        reveal_strlit("\u{21b5}");
        reveal_strlit("Replace every match");
        reveal_strlit("all");
    } else if i == 115 {
        reveal_strlit("FIND_CLOSE");
        reveal_strlit("Esc");
        reveal_strlit("Close find");
        reveal_strlit("close");
    } else if i == 116 {
        reveal_strlit("SET_SECTION");
        reveal_strlit("\u{2191} \u{2193}  Tab");
        reveal_strlit("Switch section");
        reveal_strlit("Section");
    } else if i == 117 {
        reveal_strlit("SET_ADJUST");
        reveal_strlit("\u{2190} \u{2192}  + \u{2212}");
        reveal_strlit("Adjust value");
        reveal_strlit("Change");
    } else if i == 118 {
        reveal_strlit("SET_CLOSE");
        reveal_strlit("Esc / \u{21b5}");
        reveal_strlit("Close");
    } else {
        reveal_strlit("REC_NAV");
        reveal_strlit("\u{2191}\u{2193}");
        reveal_strlit("Navigate");
        reveal_strlit("Move");
    }
}

proof fn lemma_rows_from_120(i: usize)
    requires
        120 <= i < 127,
    ensures
        tells(i),
{
    reveal(row);
    if i == 120 {
        reveal_strlit("REC_TOGGLE");
        reveal_strlit("Space");
        reveal_strlit("Toggle selection");
        reveal_strlit("Check");
    } else if i == 121 {
        reveal_strlit("REC_OPEN");
        reveal_strlit("\u{21b5}");
        reveal_strlit("Open");
    } else if i == 122 {
        reveal_strlit("REC_REMOVE");
        reveal_strlit("\u{232b}");
        reveal_strlit("Remove from the list");
        reveal_strlit("Remove");
    } else if i == 123 {
        reveal_strlit("REC_CLOSE");
        reveal_strlit("Esc");
        reveal_strlit("Close");
    } else if i == 124 {
        reveal_strlit("HELP_SCROLL");
        reveal_strlit("\u{2191}\u{2193}");
        reveal_strlit("Scroll");
    } else if i == 125 {
        reveal_strlit("HELP_PAGE");
        reveal_strlit("PgUp/Dn");
        reveal_strlit("Page");
    } else {
        reveal_strlit("HELP_CLOSE");
        reveal_strlit("Esc");
        reveal_strlit("Close");
    }
}

proof fn lemma_every_row_tells(i: usize)
    requires
        i < KEY_COUNT,
    ensures
        tells(i),
{
    if i < 8 {
        lemma_rows_from_0(i);
    } else if i < 16 {
        lemma_rows_from_8(i);
    } else if i < 24 {
        lemma_rows_from_16(i);
    } else if i < 32 {
        lemma_rows_from_24(i);
    } else if i < 40 {
        lemma_rows_from_32(i);
    } else if i < 48 {
        lemma_rows_from_40(i);
    } else if i < 56 {
        lemma_rows_from_48(i);
    } else if i < 64 {
        lemma_rows_from_56(i);
    } else if i < 72 {
        lemma_rows_from_64(i);
    } else if i < 80 {
        lemma_rows_from_72(i);
    } else if i < 88 {
        lemma_rows_from_80(i);
    } else if i < 96 {
        lemma_rows_from_88(i);
    } else if i < 104 {
        lemma_rows_from_96(i);
    } else if i < 112 {
        lemma_rows_from_104(i);
    } else if i < 120 {
        lemma_rows_from_112(i);
    } else {
        lemma_rows_from_120(i);
    }
}

/// Every id stands in the table once.
pub proof fn law_ids_are_unique(i: usize, j: usize)
    requires
        i < KEY_COUNT,
        j < KEY_COUNT,
        row(i).id@ == row(j).id@,
    ensures
        i == j,
{
    lemma_every_row_tells(i);
    lemma_every_row_tells(j);
}

proof fn lemma_found_from(i: usize, from: usize)
    requires
        from <= i < KEY_COUNT,
    ensures
        found_from(row(i).id@, from) == row(i),
    decreases i - from,
{
    if from < i {
        if row(from).id@ == row(i).id@ {
            law_ids_are_unique(from, i);
        }
        lemma_found_from(i, (from + 1) as usize);
    }
}

/// Looking a row up by its id gives that row.
pub proof fn law_a_row_is_found_by_its_id(i: usize)
    requires
        i < KEY_COUNT,
    ensures
        found(row(i).id@) == row(i),
{
    lemma_found_from(i, 0);
}

/// Every row has a key and a label, and its short label fits a footer.
pub proof fn law_every_row_is_labelled(i: usize)
    requires
        i < KEY_COUNT,
    ensures
        row(i).key@.len() > 0,
        row(i).label@.len() > 0,
        row(i).short@.len() <= 18,
{
    lemma_every_row_tells(i);
}

/// The hint of every row is its chord and its short label, or its label where it
/// has no short one, and neither is empty.
pub proof fn law_hints_are_not_empty(i: usize, mac: bool)
    requires
        i < KEY_COUNT,
    ensures
        chord_of(found(row(i).id@), mac) == chord_of(row(i), mac),
        chord_of(row(i), mac).len() > 0,
        footer_label(found(row(i).id@)) == if row(i).short@.len() > 0 {
            row(i).short@
        } else {
            row(i).label@
        },
        footer_label(row(i)).len() > 0,
{
    law_a_row_is_found_by_its_id(i);
    lemma_every_row_tells(i);
}

} // verus!
