//! The lines of the board and the outcome of a position.

use vstd::prelude::*;
use crate::board::{Board, CELL_COUNT, cells_full, column_of, in_range, row_of};
use crate::mark::Mark;

verus! {

/// The three directions in which three cells form a line.
#[derive(Clone, Copy, Debug, PartialEq, Eq, Hash, Structural)]
pub enum LineKind {
    Row,
    Column,
    Diagonal,
}

/// The status of a game, as the marks on the board alone decide it.
#[derive(Clone, Copy, Debug, PartialEq, Eq, Hash, Structural)]
pub enum Outcome {
    /// No line is complete and a cell is still empty: the game goes on.
    Incomplete,
    /// A line is held by one player. Rows count from the top and columns from
    /// the left, 0 to 2; diagonal 0 runs from the top left to the bottom
    /// right, diagonal 1 from the bottom left to the top right.
    Line(LineKind, usize),
    /// The board is full and no line is complete.
    Tie,
}

/// Whether `kind` has a line numbered `index`: three rows, three columns, two diagonals.
pub open spec fn is_line(kind: LineKind, index: int) -> bool {
    match kind {
        LineKind::Row => 0 <= index < 3,
        LineKind::Column => 0 <= index < 3,
        LineKind::Diagonal => 0 <= index < 2,
    }
}

/// The three cells of a line, in the order in which the line is read.
pub open spec fn line_cells(kind: LineKind, index: int) -> (int, int, int) {
    match kind {
        LineKind::Row => (3 * index, 3 * index + 1, 3 * index + 2),
        LineKind::Column => (index, index + 3, index + 6),
        LineKind::Diagonal => if index == 0 {
            (0, 4, 8)
        } else {
            (6, 4, 2)
        },
    }
}

/// Whether `cell` is one of the three cells of the line.
pub open spec fn line_contains(kind: LineKind, index: int, cell: int) -> bool {
    let (a, b, c) = line_cells(kind, index);
    cell == a || cell == b || cell == c
}

/// The place of a line in the order in which lines are examined: the rows
/// from the top, then the columns from the left, then the two diagonals.
pub open spec fn line_rank(kind: LineKind, index: int) -> int {
    match kind {
        LineKind::Row => index,
        LineKind::Column => 3 + index,
        LineKind::Diagonal => 6 + index,
    }
}

/// The mark in the first cell of a line.
pub open spec fn line_mark(cells: Seq<Mark>, kind: LineKind, index: int) -> Mark {
    cells[line_cells(kind, index).0]
}

/// Whether the three cells of the line hold the same player's mark.
pub open spec fn line_complete(cells: Seq<Mark>, kind: LineKind, index: int) -> bool {
    let (a, b, c) = line_cells(kind, index);
    cells[a] != Mark::Empty && cells[a] == cells[b] && cells[b] == cells[c]
}

/// Whether no line at all is complete.
pub open spec fn no_line_complete(cells: Seq<Mark>) -> bool {
    forall|kind: LineKind, index: int|
        is_line(kind, index) ==> !#[trigger] line_complete(cells, kind, index)
}

/// Whether `outcome` is the status of the position `cells`: a complete line
/// before which, in the order of examination, no other line is complete; or,
/// where no line is complete, a tie on a full board and an unfinished game
/// otherwise.
pub open spec fn is_outcome_of(cells: Seq<Mark>, outcome: Outcome) -> bool {
    match outcome {
        Outcome::Line(kind, index) => {
            &&& is_line(kind, index as int)
            &&& line_complete(cells, kind, index as int)
            &&& forall|k: LineKind, i: int|
                is_line(k, i) && line_rank(k, i) < line_rank(kind, index as int)
                    ==> !#[trigger] line_complete(cells, k, i)
        },
        Outcome::Tie => no_line_complete(cells) && cells_full(cells),
        Outcome::Incomplete => no_line_complete(cells) && !cells_full(cells),
    }
}

/// The status of the position `cells`, line by line in the order of examination.
pub open spec fn outcome_of(cells: Seq<Mark>) -> Outcome {
    if line_complete(cells, LineKind::Row, 0) {
        Outcome::Line(LineKind::Row, 0)
    } else if line_complete(cells, LineKind::Row, 1) {
        Outcome::Line(LineKind::Row, 1)
    } else if line_complete(cells, LineKind::Row, 2) {
        Outcome::Line(LineKind::Row, 2)
    } else if line_complete(cells, LineKind::Column, 0) {
        Outcome::Line(LineKind::Column, 0)
    } else if line_complete(cells, LineKind::Column, 1) {
        Outcome::Line(LineKind::Column, 1)
    } else if line_complete(cells, LineKind::Column, 2) {
        Outcome::Line(LineKind::Column, 2)
    } else if line_complete(cells, LineKind::Diagonal, 0) {
        Outcome::Line(LineKind::Diagonal, 0)
    } else if line_complete(cells, LineKind::Diagonal, 1) {
        Outcome::Line(LineKind::Diagonal, 1)
    } else if cells_full(cells) {
        Outcome::Tie
    } else {
        Outcome::Incomplete
    }
}

/// The cells of a row share their row, those of a column their column; on
/// diagonal 0 row and column are equal, on diagonal 1 they add up to 2.
pub proof fn lemma_line_geometry(kind: LineKind, index: int, cell: int)
    requires
        is_line(kind, index),
        in_range(cell),
    ensures
        line_contains(kind, index, cell) <==> match kind {
            LineKind::Row => row_of(cell) == index,
            LineKind::Column => column_of(cell) == index,
            LineKind::Diagonal => if index == 0 {
                row_of(cell) == column_of(cell)
            } else {
                row_of(cell) + column_of(cell) == 2
            },
        },
{
}

/// The cells of a line are three different cells of the board.
pub proof fn lemma_line_cells_in_range(kind: LineKind, index: int)
    requires
        is_line(kind, index),
    ensures
        ({
            let (a, b, c) = line_cells(kind, index);
            in_range(a) && in_range(b) && in_range(c) && a != b && b != c && a != c
        }),
{
}

/// `outcome_of` gives a status of the position.
pub proof fn lemma_outcome_of_holds(cells: Seq<Mark>)
    ensures
        is_outcome_of(cells, outcome_of(cells)),
{
}

/// A position has one status only: whatever passes for its outcome is `outcome_of`.
pub proof fn lemma_outcome_unique(cells: Seq<Mark>, outcome: Outcome)
    requires
        is_outcome_of(cells, outcome),
    ensures
        outcome == outcome_of(cells),
{
}

/// Evaluation is a function of the marks: boards that hold the same marks
/// have the same outcome, however often and whenever they are evaluated.
pub proof fn lemma_evaluate_deterministic(first: Board, second: Board)
    requires
        first@ == second@,
    ensures
        outcome_of(first@) == outcome_of(second@),
        forall|outcome: Outcome|
            is_outcome_of(first@, outcome) <==> is_outcome_of(second@, outcome),
{
}

/// The line examined at place `rank`.
fn nth_line(rank: usize) -> (line: (LineKind, usize))
    requires
        rank < 8,
    ensures
        is_line(line.0, line.1 as int),
        line_rank(line.0, line.1 as int) == rank,
{
    if rank < 3 {
        (LineKind::Row, rank)
    } else if rank < 6 {
        (LineKind::Column, rank - 3)
    } else {
        (LineKind::Diagonal, rank - 6)
    }
}

/// The three cells of a line.
fn cells_of_line(kind: LineKind, index: usize) -> (cells: (usize, usize, usize))
    requires
        is_line(kind, index as int),
    ensures
        (cells.0 as int, cells.1 as int, cells.2 as int) == line_cells(kind, index as int),
{
    match kind {
        LineKind::Row => (3 * index, 3 * index + 1, 3 * index + 2),
        LineKind::Column => (index, index + 3, index + 6),
        LineKind::Diagonal => if index == 0 {
            (0, 4, 8)
        } else {
            (6, 4, 2)
        },
    }
}

/// Whether one player holds the three cells of the line.
fn line_is_complete(cells: &[Mark; CELL_COUNT], kind: LineKind, index: usize) -> (complete: bool)
    requires
        is_line(kind, index as int),
    ensures
        complete == line_complete(cells@, kind, index as int),
{
    let (a, b, c) = cells_of_line(kind, index);
    cells[a] != Mark::Empty && cells[a] == cells[b] && cells[b] == cells[c]
}

/// The status of the game on `board`. The eight lines are examined in a
/// fixed order, the rows from the top, the columns from the left, then
/// diagonal 0 and diagonal 1, and the first complete one is reported. Without
/// a complete line the game is a tie if the board is full and goes on if it
/// is not. The answer depends on the marks alone.
pub fn evaluate(board: &Board) -> (outcome: Outcome)
    ensures
        outcome == outcome_of(board@),
        is_outcome_of(board@, outcome),
{
    let cells = board.cells();
    let mut rank: usize = 0;
    while rank < 8
        invariant
            rank <= 8,
            cells@ == board@,
            forall|k: LineKind, i: int|
                is_line(k, i) && line_rank(k, i) < rank ==> !#[trigger] line_complete(
                    board@,
                    k,
                    i,
                ),
        decreases 8 - rank,
    {
        let (kind, index) = nth_line(rank);
        if line_is_complete(&cells, kind, index) {
            let outcome = Outcome::Line(kind, index);
            proof {
                lemma_outcome_unique(board@, outcome);
            }
            return outcome;
        }
        rank += 1;
    }
    let outcome = if board.is_full() {
        Outcome::Tie
    } else {
        Outcome::Incomplete
    };
    proof {
        lemma_outcome_unique(board@, outcome);
    }
    outcome
}

impl Default for Outcome {
    fn default() -> (outcome: Outcome)
        ensures
            outcome == Outcome::Incomplete,
    {
        Outcome::Incomplete
    }
}

} // verus!
