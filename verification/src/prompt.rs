//! The prompt at the top of everything: a name to type or a choice to make.

use crate::editline::{char_len, field, Field};
use vstd::prelude::*;
use vstd::string::*;

verus! {

/// What the prompt asks for.
#[derive(Debug, Clone, Copy, PartialEq, Eq, Structural)]
pub enum PromptKind {
    NewFile,
    NewFolder,
    Rename,
    Delete,
    /// Save a file before every file is closed?
    CloseUnsaved,
    /// Save a file before its tab is closed?
    CloseTab,
    /// Save a file before quitting?
    QuitUnsaved,
    /// Quit though a terminal runs a command?
    QuitTerminal,
    /// A file with unsaved edits changed on disk: reload it or keep the edits?
    ExternalChange,
    /// Open a link that was clicked in a terminal?
    OpenUrl,
}

impl PromptKind {
    /// Whether a name is typed into the prompt.
    pub open spec fn takes_input(self) -> bool {
        self == PromptKind::NewFile || self == PromptKind::NewFolder || self == PromptKind::Rename
    }
}

/// The prompt.
pub struct Prompt {
    pub active: bool,
    pub asks: Option<PromptKind>,
    /// The file or folder that the prompt is about.
    pub target: String,
    /// What has been typed.
    pub input: String,
    pub cursor: usize,
    pub anchor: Option<usize>,
    /// The question, where it is more than the kind says.
    pub message: String,
}

/// The prompt as a mathematical value.
#[verifier::ext_equal]
pub struct PromptState {
    pub active: bool,
    pub asks: Option<PromptKind>,
    pub target: Seq<char>,
    pub input: Field,
    pub message: Seq<char>,
}

impl PromptState {
    /// No prompt.
    pub open spec fn closed() -> PromptState {
        PromptState {
            active: false,
            asks: None,
            target: Seq::empty(),
            input: Field { text: Seq::empty(), cursor: 0, anchor: None },
            message: Seq::empty(),
        }
    }

    /// A prompt about `target`, with `input` in its field and the cursor
    /// behind it.
    pub open spec fn asking(
        kind: PromptKind,
        target: Seq<char>,
        input: Seq<char>,
    ) -> PromptState {
        PromptState {
            active: true,
            asks: Some(kind),
            target,
            input: Field { text: input, cursor: input.len() as int, anchor: None },
            message: Seq::empty(),
        }
    }

    /// A prompt with a question of its own.
    pub open spec fn confirming(kind: PromptKind, message: Seq<char>) -> PromptState {
        PromptState { message, ..PromptState::asking(kind, Seq::empty(), Seq::empty()) }
    }
}

impl View for Prompt {
    type V = PromptState;

    open spec fn view(&self) -> PromptState {
        PromptState {
            active: self.active,
            asks: self.asks,
            target: self.target@,
            input: field(self.input@, self.cursor, self.anchor),
            message: self.message@,
        }
    }
}

impl Default for Prompt {
    fn default() -> (r: Prompt)
        ensures
            r@ == PromptState::closed(),
    {
        Prompt {
            active: false,
            asks: None,
            target: String::new(),
            input: String::new(),
            cursor: 0,
            anchor: None,
            message: String::new(),
        }
    }
}

impl Prompt {
    /// Ask about `target`.
    pub fn open(&mut self, kind: PromptKind, target: String, input: String)
        ensures
            final(self)@ == PromptState::asking(kind, target@, input@),
    {
        self.active = true;
        self.asks = Some(kind);
        self.target = target;
        self.cursor = char_len(input.as_str());
        self.input = input;
        self.anchor = None;
        self.message = String::new();
    }

    /// Ask a question of its own.
    pub fn open_confirm(&mut self, kind: PromptKind, message: String)
        ensures
            final(self)@ == PromptState::confirming(kind, message@),
    {
        self.open(kind, String::new(), String::new());
        self.message = message;
    }

    pub fn close(&mut self)
        ensures
            final(self)@ == PromptState::closed(),
    {
        self.active = false;
        self.asks = None;
        self.target = String::new();
        self.input = String::new();
        self.cursor = 0;
        self.anchor = None;
        self.message = String::new();
    }

    /// What the prompt asks for, while it is open.
    pub fn kind(&self) -> (r: Option<PromptKind>)
        ensures
            r == (if self.active {
                self.asks
            } else {
                None
            }),
    {
        if self.active {
            self.asks
        } else {
            None
        }
    }

    /// Whether a name is typed into the prompt.
    pub fn needs_input(&self) -> (r: bool)
        ensures
            r == (self.asks matches Some(k) && k.takes_input()),
    {
        match self.asks {
            Some(PromptKind::NewFile) => true,
            Some(PromptKind::NewFolder) => true,
            Some(PromptKind::Rename) => true,
            _ => false,
        }
    }
}

} // verus!
