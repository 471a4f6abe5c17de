//! The game as a state machine over plain values: what a session holds, what
//! a placement answers and what it leaves behind, and what holds of every
//! state that play can reach.

use vstd::prelude::*;
use crate::board::{CELL_COUNT, cell_write, empty_cells, in_range};
use crate::mark::Mark;
use crate::outcome::{
    LineKind, Outcome, is_line, line_complete, line_contains, line_mark, no_line_complete,
    outcome_of,
};
use crate::rejection::Rejection;

verus! {

/// The answer to a placement.
#[derive(Clone, Copy, Debug, PartialEq, Eq, Hash, Structural)]
pub enum MoveResult {
    /// The mark was written. The first field is that mark, the second the
    /// player who moves next: the opponent while the game goes on, the same
    /// player once this placement has ended it.
    Placed(Mark, Mark),
    /// Nothing was written, for the reason given.
    Rejected(Rejection),
}

/// What a session is made of: the marks on the board and the player to move.
/// The outcome is no part of it: the marks decide it.
pub struct SessionState {
    pub cells: Seq<Mark>,
    pub mover: Mark,
}

impl SessionState {
    /// The state in which every game starts: an empty board, `First` to move.
    pub open spec fn initial() -> SessionState {
        SessionState { cells: empty_cells(), mover: Mark::First }
    }

    /// Nine cells, and a player to move.
    pub open spec fn well_formed(self) -> bool {
        self.cells.len() == CELL_COUNT && self.mover != Mark::Empty
    }

    /// The status of the game in this state.
    pub open spec fn outcome(self) -> Outcome {
        outcome_of(self.cells)
    }

    /// Why a placement at `index` is refused in this state, if it is. A game
    /// that is over refuses every placement, whatever the index; after that
    /// the index must name a cell, and the cell must be empty.
    pub open spec fn refusal(self, index: int) -> Option<Rejection> {
        if self.outcome() != Outcome::Incomplete {
            Some(Rejection::AlreadyConcluded)
        } else {
            match cell_write(self.cells, index) {
                Ok(_) => None,
                Err(reason) => Some(reason),
            }
        }
    }

    /// The state after a placement at `index` is asked for. A refused
    /// placement leaves the state as it is. An accepted one writes the
    /// mover's mark; the turn passes to the opponent if the game goes on and
    /// stays where it is if the game is over.
    pub open spec fn after(self, index: int) -> SessionState {
        if self.refusal(index) is Some {
            self
        } else {
            let cells = self.cells.update(index, self.mover);
            let mover = if outcome_of(cells) == Outcome::Incomplete {
                self.mover.opponent_of()
            } else {
                self.mover
            };
            SessionState { cells, mover }
        }
    }

    /// The answer to a placement at `index` in this state.
    pub open spec fn answer(self, index: int) -> MoveResult {
        match self.refusal(index) {
            Some(reason) => MoveResult::Rejected(reason),
            None => MoveResult::Placed(self.mover, self.after(index).mover),
        }
    }

    /// The state after the placements `moves` are asked for one after another.
    pub open spec fn play(self, moves: Seq<int>) -> SessionState
        decreases moves.len(),
    {
        if moves.len() == 0 {
            self
        } else {
            self.play(moves.drop_last()).after(moves.last())
        }
    }

    /// Whether some sequence of placements leads from the initial state to this one.
    pub open spec fn reachable(self) -> bool {
        exists|moves: Seq<int>| #[trigger] SessionState::initial().play(moves) == self
    }
}

/// Whether all complete lines are held by the same player.
pub open spec fn lines_agree(cells: Seq<Mark>) -> bool {
    forall|k1: LineKind, i1: int, k2: LineKind, i2: int|
        is_line(k1, i1) && is_line(k2, i2) && #[trigger] line_complete(cells, k1, i1)
            && #[trigger] line_complete(cells, k2, i2) ==> line_mark(cells, k1, i1) == line_mark(
            cells,
            k2,
            i2,
        )
}

/// How many of the first `upto` cells hold `mark`.
pub open spec fn count_of(cells: Seq<Mark>, mark: Mark, upto: int) -> int
    decreases upto,
{
    if upto <= 0 {
        0
    } else {
        count_of(cells, mark, upto - 1) + if cells[upto - 1] == mark {
            1int
        } else {
            0int
        }
    }
}

/// Whether the marks on the board and the turn fit play in turns that
/// `First` opened. While the game is on, the mover is the player who has
/// placed less, or `First` if both have placed as often. Once it is over, the
/// mover is the player who placed last.
pub open spec fn turns_alternate(s: SessionState) -> bool {
    let firsts = count_of(s.cells, Mark::First, CELL_COUNT as int);
    let seconds = count_of(s.cells, Mark::Second, CELL_COUNT as int);
    if (s.outcome() == Outcome::Incomplete) == (s.mover == Mark::First) {
        firsts == seconds
    } else {
        firsts == seconds + 1
    }
}

/// The initial state has nine empty cells, `First` to move, and the game is on.
pub proof fn lemma_initial()
    ensures
        SessionState::initial().well_formed(),
        SessionState::initial().reachable(),
        SessionState::initial().cells == Seq::new(CELL_COUNT as nat, |i: int| Mark::Empty),
        SessionState::initial().mover == Mark::First,
        SessionState::initial().outcome() == Outcome::Incomplete,
{
    let start = SessionState::initial();
    assert(start.play(Seq::<int>::empty()) == start);
}

/// A placement is accepted exactly when the game is on, the index names a
/// cell and that cell is empty; each refusal has its own reason.
pub proof fn lemma_answer_cases(s: SessionState, index: int)
    ensures
        s.answer(index) == MoveResult::Rejected(Rejection::AlreadyConcluded) <==> s.outcome()
            != Outcome::Incomplete,
        s.answer(index) == MoveResult::Rejected(Rejection::OutOfRange) <==> s.outcome()
            == Outcome::Incomplete && !in_range(index),
        s.answer(index) == MoveResult::Rejected(Rejection::CellOccupied) <==> s.outcome()
            == Outcome::Incomplete && in_range(index) && s.cells[index] != Mark::Empty,
        s.answer(index) is Placed <==> s.outcome() == Outcome::Incomplete && in_range(index)
            && s.cells[index] == Mark::Empty,
{
}

/// A refused placement changes neither the board nor the turn. A placement on
/// a cell that holds a mark is always refused.
pub proof fn lemma_refused_changes_nothing(s: SessionState, index: int)
    ensures
        s.answer(index) is Rejected ==> s.after(index) == s,
        in_range(index) && s.cells[index] != Mark::Empty ==> s.answer(index) is Rejected,
{
}

/// An accepted placement writes the mover's mark to the one cell and leaves
/// the others; the outcome that follows decides who moves next.
pub proof fn lemma_placed_changes_one_cell(s: SessionState, index: int)
    requires
        s.well_formed(),
        s.answer(index) is Placed,
    ensures
        s.after(index).well_formed(),
        s.after(index).cells[index] == s.mover,
        forall|i: int| in_range(i) && i != index ==> s.after(index).cells[i] == s.cells[i],
        s.after(index).mover == if s.after(index).outcome() == Outcome::Incomplete {
            s.mover.opponent_of()
        } else {
            s.mover
        },
        s.answer(index) == MoveResult::Placed(s.mover, s.after(index).mover),
{
}

/// A mark, once placed, stays: no sequence of placements changes a cell that
/// holds one.
pub proof fn lemma_marks_stay(s: SessionState, moves: Seq<int>, cell: int)
    requires
        s.cells.len() == CELL_COUNT,
        in_range(cell),
        s.cells[cell] != Mark::Empty,
    ensures
        s.play(moves).cells.len() == CELL_COUNT,
        s.play(moves).cells[cell] == s.cells[cell],
    decreases moves.len(),
{
    if moves.len() > 0 {
        lemma_marks_stay(s, moves.drop_last(), cell);
    }
}

/// Once the game is over, every further placement is refused as
/// `AlreadyConcluded`, whatever its index and however many came before it,
/// and no sequence of placements changes the board or the turn.
pub proof fn lemma_concluded_is_final(s: SessionState, moves: Seq<int>)
    requires
        s.outcome() != Outcome::Incomplete,
    ensures
        s.play(moves) == s,
        forall|index: int| #[trigger]
            s.answer(index) == MoveResult::Rejected(Rejection::AlreadyConcluded),
        forall|index: int| #[trigger] s.after(index) == s,
        forall|k: int|
            0 <= k < moves.len() ==> #[trigger] s.play(moves.take(k)).answer(moves[k])
                == MoveResult::Rejected(Rejection::AlreadyConcluded),
    decreases moves.len(),
{
    if moves.len() > 0 {
        lemma_concluded_is_final(s, moves.drop_last());
    }
    assert forall|k: int| 0 <= k < moves.len() implies #[trigger] s.play(moves.take(k)).answer(
        moves[k],
    ) == MoveResult::Rejected(Rejection::AlreadyConcluded) by {
        lemma_concluded_is_final(s, moves.take(k));
    }
}

/// An accepted placement completes lines only through the cell that it
/// fills, and only for the player who made it.
pub proof fn lemma_placement_lines(s: SessionState, index: int, kind: LineKind, line: int)
    requires
        s.cells.len() == CELL_COUNT,
        s.answer(index) is Placed,
        is_line(kind, line),
        line_complete(s.after(index).cells, kind, line),
    ensures
        line_contains(kind, line, index),
        line_mark(s.after(index).cells, kind, line) == s.mover,
{
}

/// Two different lines are never complete together, unless the placement
/// that ended the game filled the cell in which they cross.
pub proof fn lemma_single_line(
    s: SessionState,
    index: int,
    k1: LineKind,
    i1: int,
    k2: LineKind,
    i2: int,
)
    requires
        s.cells.len() == CELL_COUNT,
        s.answer(index) is Placed,
        is_line(k1, i1),
        is_line(k2, i2),
        (k1, i1) != (k2, i2),
        !(line_contains(k1, i1, index) && line_contains(k2, i2, index)),
    ensures
        !(line_complete(s.after(index).cells, k1, i1) && line_complete(
            s.after(index).cells,
            k2,
            i2,
        )),
{
    if line_complete(s.after(index).cells, k1, i1) && line_complete(s.after(index).cells, k2, i2) {
        lemma_placement_lines(s, index, k1, i1);
        lemma_placement_lines(s, index, k2, i2);
    }
}

/// Writing `mark` to an empty cell adds one to the count of `mark` and leaves
/// the count of the other player's mark.
pub proof fn lemma_count_after_write(cells: Seq<Mark>, index: int, mark: Mark, upto: int)
    requires
        0 <= index < cells.len(),
        0 <= upto <= cells.len(),
        cells[index] == Mark::Empty,
        mark != Mark::Empty,
    ensures
        count_of(cells.update(index, mark), mark, upto) == count_of(cells, mark, upto) + if index
            < upto {
            1int
        } else {
            0int
        },
        count_of(cells.update(index, mark), mark.opponent_of(), upto) == count_of(
            cells,
            mark.opponent_of(),
            upto,
        ),
    decreases upto,
{
    if upto > 0 {
        lemma_count_after_write(cells, index, mark, upto - 1);
    }
}

/// A step of play keeps the turns alternating.
pub proof fn lemma_after_alternates(s: SessionState, index: int)
    requires
        s.well_formed(),
        turns_alternate(s),
    ensures
        turns_alternate(s.after(index)),
{
    if s.answer(index) is Placed {
        lemma_count_after_write(s.cells, index, s.mover, CELL_COUNT as int);
    }
}

/// A step of play keeps the board at nine cells with a player to move,
/// keeps all complete lines in one hand, and keeps the turns alternating.
pub proof fn lemma_after_invariant(s: SessionState, index: int)
    requires
        s.well_formed(),
        lines_agree(s.cells),
        turns_alternate(s),
    ensures
        s.after(index).well_formed(),
        lines_agree(s.after(index).cells),
        turns_alternate(s.after(index)),
{
    if s.answer(index) is Placed {
        let next = s.after(index).cells;
        assert forall|k1: LineKind, i1: int, k2: LineKind, i2: int|
            is_line(k1, i1) && is_line(k2, i2) && #[trigger] line_complete(next, k1, i1)
                && #[trigger] line_complete(next, k2, i2) implies line_mark(next, k1, i1)
            == line_mark(next, k2, i2) by {
            lemma_placement_lines(s, index, k1, i1);
            lemma_placement_lines(s, index, k2, i2);
        }
    }
    lemma_after_alternates(s, index);
}

/// Whatever placements are asked for from the start, the board has nine
/// cells, a player is to move, no two complete lines belong to different
/// players, and the players have placed in turns.
pub proof fn lemma_play_invariant(moves: Seq<int>)
    ensures
        SessionState::initial().play(moves).well_formed(),
        lines_agree(SessionState::initial().play(moves).cells),
        turns_alternate(SessionState::initial().play(moves)),
    decreases moves.len(),
{
    if moves.len() == 0 {
        lemma_initial();
        assert(turns_alternate(SessionState::initial())) by {
            reveal_with_fuel(count_of, 10);
        }
    } else {
        lemma_play_invariant(moves.drop_last());
        lemma_after_invariant(SessionState::initial().play(moves.drop_last()), moves.last());
    }
}

/// Every reachable state is well formed, with all complete lines in one
/// hand and the turns alternating; and while its game is on, no line is
/// complete at all.
pub proof fn lemma_reachable_invariant(s: SessionState)
    requires
        s.reachable(),
    ensures
        s.well_formed(),
        lines_agree(s.cells),
        turns_alternate(s),
        s.outcome() == Outcome::Incomplete ==> no_line_complete(s.cells),
{
    let moves = choose|moves: Seq<int>| #[trigger] SessionState::initial().play(moves) == s;
    lemma_play_invariant(moves);
}

/// A placement asked of a reachable state leads to a reachable state.
pub proof fn lemma_after_reachable(s: SessionState, index: int)
    requires
        s.reachable(),
    ensures
        s.after(index).reachable(),
{
    let moves = choose|moves: Seq<int>| #[trigger] SessionState::initial().play(moves) == s;
    let longer = moves.push(index);
    assert(longer.drop_last() =~= moves);
    assert(SessionState::initial().play(longer) == s.after(index));
}

} // verus!
