//! File types, told apart by the file name, and the rule set each one selects.

use vstd::prelude::*;
use crate::highlighting::HighlightingOptions;
use crate::text::to_chars;

verus! {

/// The kinds of file that are told apart.
#[derive(Clone, Copy, Debug, PartialEq, Eq, Structural)]
pub enum FileType {
    /// Any file that is not recognised; nothing is highlighted.
    Plain,
    /// Rust source, recognised by the extension `.rs`.
    Rust,
}

/// `name` ends in `.rs`.
pub open spec fn has_rust_extension(name: Seq<char>) -> bool {
    &&& name.len() >= 3
    &&& name[name.len() - 3] == '.'
    &&& name[name.len() - 2] == 'r'
    &&& name[name.len() - 1] == 's'
}

impl FileType {
    /// The type of the file called `name`.
    pub open spec fn of_name(name: Seq<char>) -> FileType {
        if has_rust_extension(name) {
            FileType::Rust
        } else {
            FileType::Plain
        }
    }

    /// The type of a document whose file name is `name`, if it has one.
    pub open spec fn of_optional_name(name: Option<Seq<char>>) -> FileType {
        match name {
            Some(n) => Self::of_name(n),
            None => FileType::Plain,
        }
    }

    /// The rule set that this type selects.
    pub open spec fn options(self) -> HighlightingOptions {
        match self {
            FileType::Plain => HighlightingOptions { numbers: false, strings: false },
            FileType::Rust => HighlightingOptions { numbers: true, strings: true },
        }
    }

    /// The name under which this type is shown.
    pub open spec fn label(self) -> Seq<char> {
        match self {
            FileType::Plain => "No filetype"@,
            FileType::Rust => "Rust"@,
        }
    }

    /// Classifies a file by its name.
    pub fn from(file_name: &str) -> (file_type: FileType)
        ensures
            file_type == Self::of_name(file_name@),
    {
        let name = to_chars(file_name);
        let n = name.len();
        if n >= 3 && name[n - 3] == '.' && name[n - 2] == 'r' && name[n - 1] == 's' {
            FileType::Rust
        } else {
            FileType::Plain
        }
    }

    /// The name under which this type is shown.
    pub fn name(&self) -> (name: String)
        ensures
            name@ == self.label(),
    {
        match self {
            FileType::Plain => "No filetype".to_owned(),
            FileType::Rust => "Rust".to_owned(),
        }
    }

    /// The rule set that this type selects.
    pub fn highlighting_options(&self) -> (opts: HighlightingOptions)
        ensures
            opts == self.options(),
    {
        match self {
            FileType::Plain => HighlightingOptions { numbers: false, strings: false },
            FileType::Rust => HighlightingOptions { numbers: true, strings: true },
        }
    }
}

impl Default for FileType {
    fn default() -> (file_type: FileType)
        ensures
            file_type == FileType::Plain,
    {
        FileType::Plain
    }
}

} // verus!
