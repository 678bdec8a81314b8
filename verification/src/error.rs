//! What an operation on a universe can refuse.

use vstd::prelude::*;

verus! {

/// Why an operation that takes coordinates did nothing.
#[derive(Clone, Copy, Debug, PartialEq, Eq, Structural)]
pub enum UniverseError {
    /// The coordinate names no cell: its row is not below the height, or
    /// its column is not below the width.
    InvalidCoordinate { row: u32, column: u32 },
}

} // verus!
