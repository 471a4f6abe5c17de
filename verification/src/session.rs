//! A game in progress: the board, the player to move and the outcome so far.

use vstd::prelude::*;
use crate::board::{Board, CELL_COUNT};
use crate::mark::Mark;
use crate::outcome::{Outcome, evaluate, outcome_of};
use crate::rejection::Rejection;
use crate::state::{
    MoveResult, SessionState, lemma_after_reachable, lemma_initial, lemma_reachable_invariant,
};

verus! {

/// One game from its first placement to its end, and after a reset the next
/// one. The session owns its board; marks get onto it through `place` alone,
/// so every session is in a state that play can reach, and the outcome it
/// keeps is always that of its board.
#[derive(Debug, PartialEq, Eq)]
pub struct GameSession {
    board: Board,
    mover: Mark,
    outcome: Outcome,
}

impl View for GameSession {
    type V = SessionState;

    closed spec fn view(&self) -> SessionState {
        SessionState { cells: self.board@, mover: self.mover }
    }
}

impl GameSession {
    /// What holds of every session: play can reach its state, and the
    /// outcome it keeps is the outcome of its board.
    #[verifier::type_invariant]
    spec fn consistent(self) -> bool {
        &&& self@.reachable()
        &&& self.outcome == outcome_of(self.board@)
    }

    /// A session at the start of a game: the board empty, `First` to move.
    pub fn new() -> (session: GameSession)
        ensures
            session@ == SessionState::initial(),
    {
        proof {
            lemma_initial();
        }
        GameSession { board: Board::new(), mover: Mark::First, outcome: Outcome::Incomplete }
    }

    /// Asks for the mover's mark to be placed on cell `index`.
    ///
    /// The placement is refused, and the session left untouched, if the game
    /// is over (`AlreadyConcluded`, whatever the index), if there is no such
    /// cell (`OutOfRange`), or if the cell holds a mark (`CellOccupied`).
    /// Otherwise the mark is written and the outcome computed anew; the turn
    /// passes to the opponent if the game goes on.
    pub fn place(&mut self, index: usize) -> (result: MoveResult)
        ensures
            result == old(self)@.answer(index as int),
            final(self)@ == old(self)@.after(index as int),
            result is Rejected ==> final(self)@ == old(self)@,
            index < CELL_COUNT && old(self)@.cells[index as int] != Mark::Empty ==> result
                is Rejected && final(self)@ == old(self)@,
            old(self)@.outcome() != Outcome::Incomplete ==> result == MoveResult::Rejected(
                Rejection::AlreadyConcluded,
            ) && final(self)@ == old(self)@,
            old(self)@.reachable(),
            final(self)@.reachable(),
    {
        proof {
            use_type_invariant(&*self);
            lemma_after_reachable(self@, index as int);
        }
        if self.outcome != Outcome::Incomplete {
            return MoveResult::Rejected(Rejection::AlreadyConcluded);
        }
        let placed = self.mover;
        let mut board = self.board;
        match board.set(index, placed) {
            Err(reason) => MoveResult::Rejected(reason),
            Ok(_) => {
                let outcome = evaluate(&board);
                let mover = if outcome == Outcome::Incomplete {
                    placed.opponent()
                } else {
                    placed
                };
                *self = GameSession { board, mover, outcome };
                MoveResult::Placed(placed, mover)
            },
        }
    }

    /// Starts over: the board empty, `First` to move, the game on. Whatever
    /// was placed or concluded before is gone.
    pub fn reset(&mut self)
        ensures
            final(self)@ == SessionState::initial(),
            final(self)@.cells == Seq::new(CELL_COUNT as nat, |i: int| Mark::Empty),
            final(self)@.mover == Mark::First,
            final(self)@.outcome() == Outcome::Incomplete,
    {
        proof {
            lemma_initial();
        }
        *self = GameSession::new();
    }

    /// The outcome of the game as the board stands.
    pub fn current_outcome(&self) -> (outcome: Outcome)
        ensures
            outcome == self@.outcome(),
            self@.reachable(),
    {
        proof {
            use_type_invariant(self);
        }
        self.outcome
    }

    /// The player whose mark the next accepted placement writes.
    pub fn current_mover(&self) -> (mover: Mark)
        ensures
            mover == self@.mover,
            mover != Mark::Empty,
    {
        proof {
            use_type_invariant(self);
            lemma_reachable_invariant(self@);
        }
        self.mover
    }

    /// The marks of the nine cells in order, row by row.
    pub fn board_snapshot(&self) -> (cells: [Mark; CELL_COUNT])
        ensures
            cells@ == self@.cells,
    {
        self.board.cells()
    }
}

impl Clone for GameSession {
    fn clone(&self) -> (copy: GameSession)
        ensures
            copy@ == self@,
    {
        proof {
            use_type_invariant(self);
        }
        GameSession { board: self.board, mover: self.mover, outcome: self.outcome }
    }
}

impl Default for GameSession {
    fn default() -> (session: GameSession)
        ensures
            session@ == SessionState::initial(),
    {
        GameSession::new()
    }
}

} // verus!
