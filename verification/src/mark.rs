//! What a cell of the board holds.

use vstd::prelude::*;

verus! {

/// The content of one cell: nothing yet, or the symbol of one of the two players.
#[derive(Clone, Copy, Debug, PartialEq, Eq, Hash, Structural)]
pub enum Mark {
    Empty,
    First,
    Second,
}

impl Mark {
    /// The mark of the other player; `Empty` has no opponent and is its own.
    pub open spec fn opponent_of(self) -> Mark {
        match self {
            Mark::Empty => Mark::Empty,
            Mark::First => Mark::Second,
            Mark::Second => Mark::First,
        }
    }

    /// The mark of the other player.
    pub fn opponent(self) -> (other: Mark)
        ensures
            other == self.opponent_of(),
    {
        match self {
            Mark::Empty => Mark::Empty,
            Mark::First => Mark::Second,
            Mark::Second => Mark::First,
        }
    }
}

impl Default for Mark {
    fn default() -> (mark: Mark)
        ensures
            mark == Mark::Empty,
    {
        Mark::Empty
    }
}

} // verus!
