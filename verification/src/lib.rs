//! Rules of tic-tac-toe: the marks, the board, the outcome of a position and
//! a session that takes placements in turn.

pub mod board;
pub mod mark;
pub mod outcome;
pub mod rejection;
pub mod session;
pub mod state;

pub use crate::board::{Board, CELL_COUNT};
pub use crate::mark::Mark;
pub use crate::outcome::{LineKind, Outcome, evaluate};
pub use crate::rejection::Rejection;
pub use crate::session::GameSession;
pub use crate::state::MoveResult;
