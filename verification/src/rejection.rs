//! Why a request on the board or on a session is turned down.

use vstd::prelude::*;

verus! {

/// The reasons for which a placement, or a read of a cell, is refused.
/// None of them is fatal: the board and the session stay as they were.
#[derive(Clone, Copy, Debug, PartialEq, Eq, Hash, Structural)]
pub enum Rejection {
    /// The index names no cell: it is 9 or more.
    OutOfRange,
    /// The cell already holds a mark.
    CellOccupied,
    /// The game is over: a line is complete or the board is full.
    AlreadyConcluded,
}

} // verus!
