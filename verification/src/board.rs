//! The 3×3 grid of marks, its cells numbered 0 to 8 row by row.

use vstd::prelude::*;
use crate::mark::Mark;
use crate::rejection::Rejection;

verus! {

/// The number of cells of a board.
pub const CELL_COUNT: usize = 9;

/// The row of a cell, 0 at the top.
pub open spec fn row_of(index: int) -> int {
    index / 3
}

/// The column of a cell, 0 at the left.
pub open spec fn column_of(index: int) -> int {
    index % 3
}

/// The cells of a board on which nothing has been placed.
pub open spec fn empty_cells() -> Seq<Mark> {
    Seq::new(CELL_COUNT as nat, |i: int| Mark::Empty)
}

/// Whether `index` names a cell.
pub open spec fn in_range(index: int) -> bool {
    0 <= index < CELL_COUNT
}

/// Whether no cell is left empty.
pub open spec fn cells_full(cells: Seq<Mark>) -> bool {
    forall|i: int| 0 <= i < cells.len() ==> cells[i] != Mark::Empty
}

/// What reading cell `index` of `cells` gives.
pub open spec fn cell_read(cells: Seq<Mark>, index: int) -> Result<Mark, Rejection> {
    if in_range(index) {
        Ok(cells[index])
    } else {
        Err(Rejection::OutOfRange)
    }
}

/// Whether `mark` can be written to cell `index` of `cells`, and if not, why.
pub open spec fn cell_write(cells: Seq<Mark>, index: int) -> Result<(), Rejection> {
    if !in_range(index) {
        Err(Rejection::OutOfRange)
    } else if cells[index] != Mark::Empty {
        Err(Rejection::CellOccupied)
    } else {
        Ok(())
    }
}

/// A board: nine cells, each empty or holding a player's mark. Cell `index`
/// lies in row `index / 3` and column `index % 3`. The board knows nothing of
/// turns: whose mark is written is the caller's business.
#[derive(Clone, Copy, Debug, PartialEq, Eq, Hash)]
pub struct Board {
    cells: [Mark; CELL_COUNT],
}

impl View for Board {
    type V = Seq<Mark>;

    closed spec fn view(&self) -> Seq<Mark> {
        self.cells@
    }
}

impl Board {
    /// A board has nine cells.
    pub proof fn lemma_cell_count(self)
        ensures
            self@.len() == CELL_COUNT,
    {
    }

    /// The board with every cell empty.
    pub fn new() -> (board: Board)
        ensures
            board@ == empty_cells(),
    {
        let e = Mark::Empty;
        let board = Board { cells: [e, e, e, e, e, e, e, e, e] };
        assert(board@ =~= empty_cells());
        board
    }

    /// The board that holds the given marks, cell by cell.
    pub fn from_cells(cells: [Mark; CELL_COUNT]) -> (board: Board)
        ensures
            board@ == cells@,
            board@.len() == CELL_COUNT,
    {
        Board { cells }
    }

    /// The marks of the nine cells in order.
    pub fn cells(&self) -> (cells: [Mark; CELL_COUNT])
        ensures
            cells@ == self@,
            self@.len() == CELL_COUNT,
    {
        self.cells
    }

    /// The mark in cell `index`, or `OutOfRange` where there is no such cell.
    pub fn get(&self, index: usize) -> (found: Result<Mark, Rejection>)
        ensures
            found == cell_read(self@, index as int),
            self@.len() == CELL_COUNT,
    {
        if index < CELL_COUNT {
            Ok(self.cells[index])
        } else {
            Err(Rejection::OutOfRange)
        }
    }

    /// Writes `mark` to cell `index` if that cell exists and is empty. It is
    /// the one cell that changes; on an error nothing does. The index is
    /// looked at first: beyond the board the answer is `OutOfRange`, on a
    /// cell that holds a mark it is `CellOccupied`.
    pub fn set(&mut self, index: usize, mark: Mark) -> (done: Result<(), Rejection>)
        ensures
            done == cell_write(old(self)@, index as int),
            done is Ok ==> final(self)@ == old(self)@.update(index as int, mark),
            done is Err ==> final(self)@ == old(self)@,
            final(self)@.len() == CELL_COUNT,
    {
        if index >= CELL_COUNT {
            return Err(Rejection::OutOfRange);
        }
        if self.cells[index] != Mark::Empty {
            return Err(Rejection::CellOccupied);
        }
        self.cells[index] = mark;
        Ok(())
    }

    /// Whether every cell holds a player's mark.
    pub fn is_full(&self) -> (full: bool)
        ensures
            full == cells_full(self@),
            self@.len() == CELL_COUNT,
    {
        let mut i: usize = 0;
        while i < CELL_COUNT
            invariant
                i <= CELL_COUNT,
                self@.len() == CELL_COUNT,
                forall|j: int| 0 <= j < i ==> self@[j] != Mark::Empty,
            decreases CELL_COUNT - i,
        {
            if self.cells[i] == Mark::Empty {
                return false;
            }
            i += 1;
        }
        true
    }
}

impl Default for Board {
    fn default() -> (board: Board)
        ensures
            board@ == empty_cells(),
    {
        Board::new()
    }
}

} // verus!
