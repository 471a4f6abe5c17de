use tictactoe::{evaluate, Board, GameSession, LineKind, Mark, MoveResult, Outcome, Rejection};

const E: Mark = Mark::Empty;
const X: Mark = Mark::First;
const O: Mark = Mark::Second;

const LINES: [(LineKind, usize, [usize; 3]); 8] = [
    (LineKind::Row, 0, [0, 1, 2]),
    (LineKind::Row, 1, [3, 4, 5]),
    (LineKind::Row, 2, [6, 7, 8]),
    (LineKind::Column, 0, [0, 3, 6]),
    (LineKind::Column, 1, [1, 4, 7]),
    (LineKind::Column, 2, [2, 5, 8]),
    (LineKind::Diagonal, 0, [0, 4, 8]),
    (LineKind::Diagonal, 1, [6, 4, 2]),
];

/// A session after the placements `moves`, each of which must be accepted.
fn played(moves: &[usize]) -> GameSession {
    let mut session = GameSession::new();
    for index in moves {
        assert!(matches!(session.place(*index), MoveResult::Placed(_, _)));
    }
    session
}

/// The marks of the complete lines of `cells`.
fn holders_of_complete_lines(cells: &[Mark; 9]) -> Vec<(LineKind, usize, Mark)> {
    let mut found = Vec::new();
    for (kind, index, line) in LINES {
        let mark = cells[line[0]];
        if mark != Mark::Empty && mark == cells[line[1]] && mark == cells[line[2]] {
            found.push((kind, index, mark));
        }
    }
    found
}

#[test]
fn new_session_is_initial() {
    let session = GameSession::new();
    assert_eq!(session.board_snapshot(), [E; 9]);
    assert_eq!(session.current_outcome(), Outcome::Incomplete);
    assert_eq!(session.current_mover(), Mark::First);
}

#[test]
fn default_session_is_new_session() {
    assert_eq!(GameSession::default(), GameSession::new());
}

#[test]
fn first_placement_is_by_first() {
    let mut session = GameSession::new();
    assert_eq!(session.place(4), MoveResult::Placed(Mark::First, Mark::Second));
    assert_eq!(session.board_snapshot(), [E, E, E, E, X, E, E, E, E]);
    assert_eq!(session.current_mover(), Mark::Second);
    assert_eq!(session.current_outcome(), Outcome::Incomplete);
}

#[test]
fn movers_alternate() {
    let mut session = GameSession::new();
    assert_eq!(session.place(0), MoveResult::Placed(Mark::First, Mark::Second));
    assert_eq!(session.place(1), MoveResult::Placed(Mark::Second, Mark::First));
    assert_eq!(session.place(2), MoveResult::Placed(Mark::First, Mark::Second));
    assert_eq!(session.place(4), MoveResult::Placed(Mark::Second, Mark::First));
    assert_eq!(session.board_snapshot(), [X, O, X, E, O, E, E, E, E]);
}

#[test]
fn scenario_row_zero_completes_on_fifth_placement() {
    let mut session = GameSession::new();
    assert_eq!(session.place(0), MoveResult::Placed(Mark::First, Mark::Second));
    assert_eq!(session.place(3), MoveResult::Placed(Mark::Second, Mark::First));
    assert_eq!(session.place(1), MoveResult::Placed(Mark::First, Mark::Second));
    assert_eq!(session.place(4), MoveResult::Placed(Mark::Second, Mark::First));
    assert_eq!(session.current_outcome(), Outcome::Incomplete);
    assert_eq!(session.place(2), MoveResult::Placed(Mark::First, Mark::First));
    assert_eq!(session.current_outcome(), Outcome::Line(LineKind::Row, 0));
    assert_eq!(session.board_snapshot(), [X, X, X, O, O, E, E, E, E]);
}

#[test]
fn scenario_full_board_without_line_is_tie() {
    let mut session = GameSession::new();
    let moves = [0, 1, 2, 3, 5, 4, 6, 8, 7];
    for (turn, index) in moves.iter().enumerate() {
        assert_eq!(session.current_outcome(), Outcome::Incomplete);
        let mover = if turn % 2 == 0 { Mark::First } else { Mark::Second };
        let next = if turn == 8 { mover } else { mover.opponent() };
        assert_eq!(session.place(*index), MoveResult::Placed(mover, next));
        assert_eq!(session.current_outcome(), evaluate(&Board::from_cells(session.board_snapshot())));
    }
    assert_eq!(session.current_outcome(), Outcome::Tie);
    assert_eq!(session.board_snapshot(), [X, O, X, O, O, X, X, X, O]);
}

#[test]
fn scenario_out_of_range_on_fresh_session() {
    let mut session = GameSession::new();
    assert_eq!(session.place(9), MoveResult::Rejected(Rejection::OutOfRange));
    assert_eq!(session.board_snapshot(), [E; 9]);
    assert_eq!(session.current_mover(), Mark::First);
    assert_eq!(session.current_outcome(), Outcome::Incomplete);
    assert_eq!(session, GameSession::new());
}

#[test]
fn scenario_same_cell_twice() {
    let mut session = GameSession::new();
    assert_eq!(session.place(4), MoveResult::Placed(Mark::First, Mark::Second));
    let mover = session.current_mover();
    let board = session.board_snapshot();
    assert_eq!(session.place(4), MoveResult::Rejected(Rejection::CellOccupied));
    assert_eq!(session.current_mover(), mover);
    assert_eq!(session.current_mover(), Mark::Second);
    assert_eq!(session.board_snapshot(), board);
    assert_eq!(session.board_snapshot(), [E, E, E, E, X, E, E, E, E]);
}

#[test]
fn cells_in_order_complete_diagonal_one() {
    let mut session = GameSession::new();
    for index in 0..6 {
        assert!(matches!(session.place(index), MoveResult::Placed(_, _)));
        assert_eq!(session.current_outcome(), Outcome::Incomplete);
    }
    assert_eq!(session.place(6), MoveResult::Placed(Mark::First, Mark::First));
    assert_eq!(session.current_outcome(), Outcome::Line(LineKind::Diagonal, 1));
    assert_eq!(session.place(7), MoveResult::Rejected(Rejection::AlreadyConcluded));
    assert_eq!(session.place(8), MoveResult::Rejected(Rejection::AlreadyConcluded));
    assert_eq!(session.board_snapshot(), [X, O, X, O, X, O, X, E, E]);
}

#[test]
fn second_player_can_win() {
    let mut session = played(&[0, 4, 1, 2, 8]);
    assert_eq!(session.current_outcome(), Outcome::Incomplete);
    assert_eq!(session.place(6), MoveResult::Placed(Mark::Second, Mark::Second));
    assert_eq!(session.current_outcome(), Outcome::Line(LineKind::Diagonal, 1));
    assert_eq!(session.current_mover(), Mark::Second);
}

#[test]
fn column_win_is_reported() {
    let session = played(&[1, 0, 4, 2, 7]);
    assert_eq!(session.current_outcome(), Outcome::Line(LineKind::Column, 1));
}

#[test]
fn out_of_range_leaves_session_untouched() {
    let mut session = played(&[0, 4]);
    let before = session.clone();
    for index in [9, 10, 100, usize::MAX] {
        assert_eq!(session.place(index), MoveResult::Rejected(Rejection::OutOfRange));
        assert_eq!(session, before);
    }
    assert_eq!(session.place(8), MoveResult::Placed(Mark::First, Mark::Second));
}

#[test]
fn occupied_cell_changes_neither_board_nor_turn() {
    let moves = [4, 0, 8, 2, 1];
    let mut session = GameSession::new();
    for (count, index) in moves.iter().enumerate() {
        assert!(matches!(session.place(*index), MoveResult::Placed(_, _)));
        for taken in &moves[..=count] {
            let before = session.clone();
            assert_eq!(session.place(*taken), MoveResult::Rejected(Rejection::CellOccupied));
            assert_eq!(session.board_snapshot(), before.board_snapshot());
            assert_eq!(session.current_mover(), before.current_mover());
            assert_eq!(session.current_outcome(), before.current_outcome());
        }
    }
}

#[test]
fn concluded_by_line_rejects_every_placement() {
    let mut session = played(&[0, 3, 1, 4, 2]);
    let before = session.clone();
    for index in [0, 1, 2, 3, 4, 5, 6, 7, 8, 9, 10, usize::MAX] {
        assert_eq!(session.place(index), MoveResult::Rejected(Rejection::AlreadyConcluded));
        assert_eq!(session.board_snapshot(), before.board_snapshot());
        assert_eq!(session.current_outcome(), Outcome::Line(LineKind::Row, 0));
        assert_eq!(session.current_mover(), Mark::First);
    }
    assert_eq!(session, before);
}

#[test]
fn concluded_by_tie_rejects_every_placement() {
    let mut session = played(&[0, 1, 2, 3, 5, 4, 6, 8, 7]);
    assert_eq!(session.current_outcome(), Outcome::Tie);
    let before = session.clone();
    for index in [0, 4, 8, 9, usize::MAX] {
        assert_eq!(session.place(index), MoveResult::Rejected(Rejection::AlreadyConcluded));
        assert_eq!(session, before);
    }
}

#[test]
fn mover_stays_once_concluded() {
    let session = played(&[0, 3, 1, 4, 2]);
    assert_eq!(session.current_mover(), Mark::First);
    let session = played(&[0, 1, 2, 3, 5, 4, 6, 8, 7]);
    assert_eq!(session.current_mover(), Mark::First);
}

#[test]
fn reset_of_fresh_session() {
    let mut session = GameSession::new();
    session.reset();
    assert_eq!(session, GameSession::new());
}

#[test]
fn reset_in_mid_game() {
    let mut session = played(&[4, 0, 8]);
    assert_eq!(session.current_mover(), Mark::Second);
    session.reset();
    assert_eq!(session.board_snapshot(), [E; 9]);
    assert_eq!(session.current_outcome(), Outcome::Incomplete);
    assert_eq!(session.current_mover(), Mark::First);
}

#[test]
fn reset_after_line() {
    let mut session = played(&[0, 3, 1, 4, 2]);
    session.reset();
    assert_eq!(session.board_snapshot(), [E; 9]);
    assert_eq!(session.current_outcome(), Outcome::Incomplete);
    assert_eq!(session.current_mover(), Mark::First);
    assert_eq!(session.place(0), MoveResult::Placed(Mark::First, Mark::Second));
}

#[test]
fn reset_after_tie() {
    let mut session = played(&[0, 1, 2, 3, 5, 4, 6, 8, 7]);
    session.reset();
    assert_eq!(session, GameSession::new());
    assert_eq!(session.place(4), MoveResult::Placed(Mark::First, Mark::Second));
}

#[test]
fn reset_after_win_of_second_gives_turn_to_first() {
    let mut session = played(&[0, 4, 1, 2, 8, 6]);
    assert_eq!(session.current_mover(), Mark::Second);
    session.reset();
    assert_eq!(session.current_mover(), Mark::First);
}

#[test]
fn clone_is_independent() {
    let mut session = played(&[4, 0]);
    let copy = session.clone();
    assert_eq!(copy, session);
    assert_eq!(session.place(8), MoveResult::Placed(Mark::First, Mark::Second));
    assert_eq!(copy.board_snapshot(), [O, E, E, E, X, E, E, E, E]);
    assert_eq!(copy.current_mover(), Mark::First);
}

#[test]
fn one_placement_can_complete_two_lines() {
    let mut session = played(&[0, 1, 2, 3, 6, 5, 8, 7]);
    assert_eq!(session.current_outcome(), Outcome::Incomplete);
    assert_eq!(session.place(4), MoveResult::Placed(Mark::First, Mark::First));
    assert_eq!(session.current_outcome(), Outcome::Line(LineKind::Diagonal, 0));
    let lines = holders_of_complete_lines(&session.board_snapshot());
    assert_eq!(
        lines,
        vec![(LineKind::Diagonal, 0, Mark::First), (LineKind::Diagonal, 1, Mark::First)]
    );
}

#[test]
fn marks_never_revert() {
    let moves = [0, 1, 2, 3, 5, 4, 6, 8, 7];
    let mut session = GameSession::new();
    let mut seen = [E; 9];
    for index in moves {
        assert!(matches!(session.place(index), MoveResult::Placed(_, _)));
        let now = session.board_snapshot();
        for cell in 0..9 {
            if seen[cell] != Mark::Empty {
                assert_eq!(now[cell], seen[cell]);
            }
        }
        seen = now;
    }
}

/// Walks every game that can be played and checks each state on the way.
fn walk(session: &GameSession, depth: usize, states: &mut usize, games: &mut usize) {
    *states += 1;
    let cells = session.board_snapshot();
    let outcome = session.current_outcome();
    assert_eq!(outcome, evaluate(&Board::from_cells(cells)));
    let firsts = cells.iter().filter(|mark| **mark == Mark::First).count();
    let seconds = cells.iter().filter(|mark| **mark == Mark::Second).count();
    assert_eq!(firsts + seconds, depth);
    assert!(firsts == seconds || firsts == seconds + 1);
    let lines = holders_of_complete_lines(&cells);
    for (_, _, holder) in &lines {
        assert_eq!(*holder, lines[0].2);
    }
    if outcome == Outcome::Incomplete {
        assert!(lines.is_empty());
        let mover = if firsts == seconds { Mark::First } else { Mark::Second };
        assert_eq!(session.current_mover(), mover);
    } else {
        *games += 1;
        assert!(lines.len() <= 2);
        for index in 0..10 {
            let mut over = session.clone();
            assert_eq!(over.place(index), MoveResult::Rejected(Rejection::AlreadyConcluded));
            assert_eq!(&over, session);
        }
        return;
    }
    for index in 0..9 {
        let mut next = session.clone();
        let mover = session.current_mover();
        match next.place(index) {
            MoveResult::Placed(mark, then) => {
                assert_eq!(cells[index], Mark::Empty);
                assert_eq!(mark, mover);
                assert_eq!(then, next.current_mover());
                let after = next.board_snapshot();
                for cell in 0..9 {
                    let expected = if cell == index { mover } else { cells[cell] };
                    assert_eq!(after[cell], expected);
                }
                for (kind, line, holder) in holders_of_complete_lines(&after) {
                    assert_eq!(holder, mover);
                    let on_line = LINES
                        .iter()
                        .any(|(k, i, on)| *k == kind && *i == line && on.contains(&index));
                    assert!(on_line);
                }
                if next.current_outcome() == Outcome::Incomplete {
                    assert_eq!(then, mover.opponent());
                } else {
                    assert_eq!(then, mover);
                }
                walk(&next, depth + 1, states, games);
            }
            MoveResult::Rejected(reason) => {
                assert_eq!(reason, Rejection::CellOccupied);
                assert_ne!(cells[index], Mark::Empty);
                assert_eq!(&next, session);
            }
        }
    }
}

#[test]
fn every_reachable_state_is_consistent() {
    let mut states = 0;
    let mut games = 0;
    walk(&GameSession::new(), 0, &mut states, &mut games);
    assert_eq!(games, 255168);
    assert_eq!(states, 549946);
}
