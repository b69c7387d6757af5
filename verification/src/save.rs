//! Saving, step by step. Creating the file and writing to it are the
//! caller's part; what to do next, and what becomes of the document, is
//! decided here.
//!
//! The file is written in place, row by row, and a failure ends the save
//! where it stands: what was written so far stays on disk, and the document
//! still counts as edited.

use vstd::prelude::*;
use vstd::utf8::encode_utf8;
use crate::document::DocumentView;
use crate::filetype::FileType;
use crate::lines::join_lines;

verus! {

/// Where a save stands.
#[derive(Clone, Copy, Debug, PartialEq, Eq, Structural)]
pub enum SaveState {
    /// Nothing was done yet.
    Idle,
    /// The caller was asked to create the file.
    Creating,
    /// The caller was handed the bytes of the row with this index.
    Writing(usize),
    /// The save is over.
    Finished,
}

/// What the caller reports.
#[derive(Clone, Copy, Debug, PartialEq, Eq, Structural)]
pub enum SaveEvent {
    /// A save is asked for.
    Start,
    /// What was last asked of the caller was done.
    Succeeded,
    /// What was last asked of the caller failed.
    Failed,
}

/// What the caller is to do next.
#[derive(Debug)]
pub enum SaveAction {
    /// Create the file of this name, or empty it if it exists.
    Create(String),
    /// Write these bytes at the end of the file.
    Write(Vec<u8>),
    /// Nothing more: the save succeeded.
    Complete,
    /// Nothing more: the save did not succeed.
    Abandon,
}

/// A `SaveAction` with its payload as plain sequences.
pub enum SaveActionView {
    Create(Seq<char>),
    Write(Seq<u8>),
    Complete,
    Abandon,
}

impl View for SaveAction {
    type V = SaveActionView;

    open spec fn view(&self) -> SaveActionView {
        match self {
            SaveAction::Create(name) => SaveActionView::Create(name@),
            SaveAction::Write(bytes) => SaveActionView::Write(bytes@),
            SaveAction::Complete => SaveActionView::Complete,
            SaveAction::Abandon => SaveActionView::Abandon,
        }
    }
}

/// The result of one step of a save.
pub struct SaveOutcome {
    /// The document after the step.
    pub document: DocumentView,
    /// Where the save stands now.
    pub state: SaveState,
    /// What the caller is to do next.
    pub action: SaveActionView,
}

/// A save in which every step succeeded: what became of the document, and
/// the bytes that were handed out, in the order in which they were.
pub struct SaveRun {
    pub document: DocumentView,
    pub bytes: Seq<u8>,
}

/// The byte that ends a line in a file.
pub const LINE_BREAK: u8 = 0x0A;

/// The bytes that a line contributes to a file: its text in UTF-8 and one
/// line break.
pub open spec fn line_bytes(line: Seq<char>) -> Seq<u8> {
    encode_utf8(line).push(LINE_BREAK)
}

/// The bytes of a file that holds `lines`: its text in UTF-8.
pub open spec fn file_bytes(lines: Seq<Seq<char>>) -> Seq<u8> {
    encode_utf8(join_lines(lines))
}

impl DocumentView {
    /// The bytes that row `y` contributes to the file.
    pub open spec fn chunk(self, y: int) -> Seq<u8> {
        line_bytes(self.lines[y].content)
    }

    /// The same document, with its file type taken from its file name.
    pub open spec fn retyped(self) -> DocumentView {
        DocumentView { file_type: FileType::of_optional_name(self.file_name), ..self }
    }

    /// The same document, the rows from `y` on marked anew under the rule
    /// set in force with no word emphasised.
    pub open spec fn refreshed_from(self, y: int) -> DocumentView {
        self.with_lines(
            Seq::new(
                self.lines.len(),
                |k: int|
                    if k >= y {
                        self.refresh(self.lines[k])
                    } else {
                        self.lines[k]
                    },
            ),
        )
    }

    /// The same document, no longer counted as edited.
    pub open spec fn cleaned(self) -> DocumentView {
        DocumentView { dirty: false, ..self }
    }

    /// The save ends without success and leaves the document as it is.
    pub open spec fn abandon(self) -> SaveOutcome {
        SaveOutcome { document: self, state: SaveState::Finished, action: SaveActionView::Abandon }
    }

    /// Row `y` is handed out next; with no such row the save is complete and
    /// the document no longer counts as edited.
    pub open spec fn write_from(self, y: int) -> SaveOutcome {
        if y < self.lines.len() {
            SaveOutcome {
                document: self,
                state: SaveState::Writing(y as usize),
                action: SaveActionView::Write(self.chunk(y)),
            }
        } else {
            SaveOutcome {
                document: self.cleaned(),
                state: SaveState::Finished,
                action: SaveActionView::Complete,
            }
        }
    }

    /// One step of a save.
    ///
    /// - Asked to start, a document without a file name has nothing to do and
    ///   is complete at once, unchanged; one with a name asks for its file.
    /// - Once the file is there, the file type follows the file name, and the
    ///   rows are handed out from the top.
    /// - Once a row is written, it is marked anew and the next one is handed
    ///   out; after the last the document no longer counts as edited.
    /// - A failure, or a report that does not fit the state, ends the save
    ///   and leaves the document as it is.
    pub open spec fn save_step(self, state: SaveState, event: SaveEvent) -> SaveOutcome {
        match (state, event) {
            (SaveState::Idle, SaveEvent::Start) => match self.file_name {
                Some(name) => SaveOutcome {
                    document: self,
                    state: SaveState::Creating,
                    action: SaveActionView::Create(name),
                },
                None => SaveOutcome {
                    document: self,
                    state: SaveState::Finished,
                    action: SaveActionView::Complete,
                },
            },
            (SaveState::Creating, SaveEvent::Succeeded) => self.retyped().write_from(0),
            (SaveState::Writing(y), SaveEvent::Succeeded) => if y < self.lines.len() {
                self.with_lines(
                    self.lines.update(y as int, self.refresh(self.lines[y as int])),
                ).write_from(y + 1)
            } else {
                self.abandon()
            },
            _ => self.abandon(),
        }
    }

    /// The number of steps that a save at `state` has before it, at most.
    pub open spec fn steps_left(self, state: SaveState) -> nat {
        match state {
            SaveState::Creating => self.lines.len() + 1,
            SaveState::Writing(y) => if y < self.lines.len() {
                (self.lines.len() - y) as nat
            } else {
                0
            },
            _ => 0,
        }
    }

    /// The save carried on from `state` to its end, every step succeeding.
    /// This is said of documents whose rows a `usize` can count.
    pub open spec fn run_to_end(self, state: SaveState) -> SaveRun
        decreases self.steps_left(state),
        when self.lines.len() <= usize::MAX
    {
        let out = self.save_step(state, SaveEvent::Succeeded);
        match out.action {
            SaveActionView::Write(bytes) => {
                let rest = out.document.run_to_end(out.state);
                SaveRun { document: rest.document, bytes: bytes + rest.bytes }
            },
            _ => SaveRun { document: out.document, bytes: Seq::empty() },
        }
    }
}

} // verus!
