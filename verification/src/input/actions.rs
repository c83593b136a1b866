//! What a key can ask for.

use crate::buffer::state::Move;
use vstd::prelude::*;

verus! {

/// One step up, or to the left.
pub const BACK: i32 = -1;

/// A page of the cheat sheet up.
pub const PAGE_BACK: i32 = -10;

/// What a key asks of the focused terminal or of the row of terminals.
#[derive(Debug, Clone, Copy, PartialEq, Eq, Structural)]
pub enum TermAction {
    // Copy mode, with its free cursor.
    ExitCopyMode,
    CopyAndExit,
    CopyMove { rows: i32, cols: i32, select: bool },
    CopyMoveWord { dir: i32, select: bool },
    /// Enter copy mode and move its cursor.
    EnterCopyMode { rows: i32 },
    // The row of terminals.
    Next,
    Prev,
    MoveLeft,
    MoveRight,
    Jump(usize),
    New,
    Close,
    ToggleGrid,
    OpenPicker,
    // The selection and the scrollback.
    CopySelection,
    Paste,
    ScrollPage(i32),
    Select { rows: i32, cols: i32 },
    SelectWord(i32),
    // What goes to the shell.
    WordLeft,
    WordRight,
    LineStart,
    LineEnd,
    KillLine,
    /// The key itself.
    SendKey,
}

/// What a key asks for.
#[derive(Debug, Clone, Copy, PartialEq, Eq, Structural)]
pub enum KeyAction {
    Nothing,
    // Reachable from anywhere.
    OpenHelp,
    AddCaretAbove,
    AddCaretBelow,
    ToggleTerminal,
    OpenFiles,
    OpenRecent,
    ToggleWordWrap,
    OpenTodos,
    OpenClipboard,
    OpenSettings,
    RequestQuit,
    RequestOpenFolder,
    OpenSearchFiles,
    CloseTopDialog,
    // The cheat sheet.
    ScrollHelp(i32),
    // The prompt.
    AnswerCloseUnsaved { save: bool },
    CancelCloseAll,
    AnswerCloseTab { save: bool },
    ClosePrompt,
    QuitSaveCurrent,
    QuitSkipCurrent,
    QuitSaveAll,
    QuitDiscardAll,
    CancelQuit,
    AnswerExternalChange { reload: bool },
    AnswerOpenUrl { open: bool },
    ConfirmPrompt,
    /// The key edits the prompt's field.
    EditPrompt,
    // The find bar.
    ToggleReplace,
    ToggleFindFocus,
    CloseFind,
    FindNext,
    FindPrev,
    ReplaceCurrent,
    ReplaceAll,
    /// The key edits the query of the find bar.
    EditFind,
    /// The key edits the replacement of the find bar.
    EditReplace,
    // The file dialog.
    FilesUp,
    FilesDown,
    FilesExpand,
    FilesCollapse,
    FilesOpen,
    FilesTab,
    FilesBackTab,
    FilesCopyPath { relative: bool },
    FilesToggleJunk,
    FilesNewFolder,
    FilesNewFile,
    FilesDelete,
    FilesRename,
    FilesReveal,
    FilesBackspace,
    FilesInput(char),
    /// The key edits the query of the file dialog.
    EditFiles,
    // Search in files.
    SearchUp,
    SearchDown,
    SearchOpen,
    /// The key edits the query of the search in files.
    EditSearch,
    // The terminal picker.
    PickerMove(i32),
    PickerConfirm,
    PickerBackspace,
    PickerInput(char),
    // Recent folders.
    RecentMove(i32),
    RecentToggle,
    RecentOpen,
    RecentDelete,
    // Settings.
    SettingsFocus(i32),
    SettingsAdjust(i32),
    // The to-do list.
    TodoMove(i32),
    TodoAdd,
    TodoToggle,
    TodoEditAsFile,
    TodoClearDone,
    TodoRemove,
    /// The key edits the line that a task is typed into.
    EditTodo,
    // The clipboard history.
    ClipMove(i32),
    ClipPaste,
    ClipClear,
    // The editor.
    ClearCarets,
    AddNextOccurrence,
    MoveCarets { to: Move, select: bool },
    DeleteToLineStart,
    SaveActive,
    SaveAll,
    CloseTab,
    CloseAll,
    OpenFind,
    ReopenTab,
    ToggleGrid,
    SelectAll,
    CopyPath { relative: bool },
    CopySelection,
    CutSelection,
    Paste,
    Undo,
    Redo,
    MoveTabLeft,
    MoveTabRight,
    NextTab,
    PrevTab,
    DeleteSelection,
    DeleteWordLeft,
    InsertChar(char),
    Newline,
    Indent,
    Outdent,
    InsertSoftTab,
    Backspace,
    Delete,
    // The terminals.
    Terminal(TermAction),
}

} // verus!
