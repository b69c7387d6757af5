//! Addresses inside a document and the direction of a search.

use vstd::prelude::*;

verus! {

/// A gap between characters: column `x` of row `y`.
///
/// For an existing row `x` ranges from `0` to the row's length; `y` may also be
/// the number of rows, which addresses the place where a new row is appended.
#[derive(Clone, Copy, Debug, PartialEq, Eq, Structural)]
pub struct Position {
    pub x: usize,
    pub y: usize,
}

impl Default for Position {
    /// The start of the first row.
    fn default() -> (position: Position)
        ensures
            position == (Position { x: 0, y: 0 }),
    {
        Position { x: 0, y: 0 }
    }
}

/// The order in which a search visits candidate positions.
#[derive(Clone, Copy, Debug, PartialEq, Eq, Structural)]
pub enum SearchDirection {
    Forward,
    Backward,
}

} // verus!
