//! Source positions.

use vstd::prelude::*;

verus! {

/// A place in the source text: a line and a column, both counted from zero.
/// The column is a byte offset from the start of the line.
#[derive(Debug, Clone, Copy, PartialEq, Eq, Structural)]
pub struct Position {
    pub line: usize,
    pub column: usize,
}

impl Position {
    /// The position at a line and a column.
    pub fn new(line: usize, column: usize) -> (position: Self)
        ensures
            position == (Position { line, column }),
    {
        Position { line, column }
    }
}

} // verus!
