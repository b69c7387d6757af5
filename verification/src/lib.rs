//! An in-memory text buffer: lines of characters that are edited by position,
//! searched in either direction, annotated for display and laid out as the
//! bytes of a UTF-8 text file.
//!
//! Every type has a mathematical view, and every operation says in its
//! contract what it does to that view. Reading and writing files is left to
//! the caller: a document is built from a text that was read, and a save is
//! taken step by step, the caller doing what each step asks for.

pub mod document;
pub mod encoding;
pub mod filetype;
pub mod highlighting;
pub mod laws;
pub mod lines;
pub mod position;
pub mod row;
pub mod save;
pub mod text;

pub use document::Document;
pub use filetype::FileType;
pub use highlighting::{Highlight, HighlightingOptions};
pub use position::{Position, SearchDirection};
pub use row::Row;
pub use save::{SaveAction, SaveEvent, SaveState};
