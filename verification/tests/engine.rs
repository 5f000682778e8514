//! Tests of the board, the piece inventory, and the turn state machine.

use quart_engine::board::{Board, BoardError, BOARD_SIZE};
use quart_engine::game::{Game, GameError, GameResult, GameStatus, Player};
use quart_engine::piece::{piece_from_index, Piece, PIECE_COUNT};

/// A full-board arrangement with no winning line anywhere: the piece placed
/// at `(r, c)` is `DRAW_GRID[r][c]`.
const DRAW_GRID: [[usize; 4]; 4] = [
    [0, 14, 9, 7],
    [13, 3, 4, 10],
    [6, 8, 15, 1],
    [11, 5, 2, 12],
];

#[test]
fn piece_attributes_follow_the_slot_index() {
    let p5 = piece_from_index(5);
    assert!(p5.tall);
    assert!(!p5.light);
    assert!(p5.round);
    assert!(!p5.solid);
    assert!(p5.attribute(0));
    assert!(!p5.attribute(1));
    assert!(p5.attribute(2));
    assert!(!p5.attribute(3));

    let p0 = piece_from_index(0);
    assert_eq!(
        p0,
        Piece { tall: false, light: false, round: false, solid: false }
    );
    let p15 = piece_from_index(15);
    assert_eq!(
        p15,
        Piece { tall: true, light: true, round: true, solid: true }
    );
}

#[test]
fn board_place_reports_bounds_and_occupancy() {
    let mut b = Board::new();
    assert_eq!(b.place(0, 0, piece_from_index(3)), Ok(()));
    assert_eq!(b.grid[0][0], Some(piece_from_index(3)));
    assert_eq!(
        b.place(BOARD_SIZE, 0, piece_from_index(4)),
        Err(BoardError::OutOfBounds)
    );
    assert_eq!(b.place(0, 7, piece_from_index(4)), Err(BoardError::OutOfBounds));
    assert_eq!(b.place(0, 0, piece_from_index(4)), Err(BoardError::CellOccupied));
    assert_eq!(b.grid[0][0], Some(piece_from_index(3)));
    assert!(!b.is_full());
}

#[test]
fn winning_row_is_detected() {
    let mut b = Board::new();
    for c in 0..4 {
        b.place(2, c, piece_from_index(c)).unwrap();
    }
    // pieces 0..3 all have the round and solid attributes unset
    assert!(b.is_winning_line_through(2, 0));
    assert!(b.is_winning_line_through(2, 3));
    assert!(!b.is_winning_line_through(1, 0));
}

#[test]
fn winning_column_is_detected() {
    let mut b = Board::new();
    for r in 0..4 {
        b.place(r, 1, piece_from_index(2 * r + 1)).unwrap();
    }
    // pieces 1, 3, 5, 7 all have the tall attribute set
    assert!(b.is_winning_line_through(3, 1));
    assert!(b.is_winning_line_through(0, 1));
}

#[test]
fn winning_anti_diagonal_is_detected() {
    let mut b = Board::new();
    for i in 0..4 {
        b.place(i, 3 - i, piece_from_index(8 + i)).unwrap();
    }
    // pieces 8..11 all have the solid attribute set
    assert!(b.is_winning_line_through(3, 0));
    assert!(b.is_winning_line_through(0, 3));
}

#[test]
fn full_line_without_common_attribute_does_not_win() {
    let mut b = Board::new();
    for c in 0..4 {
        b.place(0, c, piece_from_index(DRAW_GRID[0][c])).unwrap();
    }
    assert!(!b.is_winning_line_through(0, 0));
    assert!(!b.is_winning_line_through(0, 3));
}

#[test]
fn fresh_game_has_piece_zero_in_hand_and_player_one_to_move() {
    let g = Game::new();
    assert!(!g.is_game_over());
    assert_eq!(g.judge_winner(), None);
    assert_eq!(g.piece_in_hand(), Some(0));
    assert_eq!(g.turn(), Player::Player1);
    assert_eq!(g.status(), GameStatus::InProgress);
    let avail = g.available_pieces();
    assert!(!avail[0]);
    for i in 1..PIECE_COUNT {
        assert!(avail[i]);
    }
    for r in 0..4 {
        for c in 0..4 {
            assert_eq!(g.board().grid[r][c], None);
        }
    }
}

#[test]
fn diagonal_of_shared_attribute_ends_the_game_for_the_fourth_placer() {
    let mut g = Game::new();
    assert_eq!(g.play_turn(0, 0, Some(1)), Ok(()));
    assert!(!g.is_game_over());
    assert_eq!(g.turn(), Player::Player2);
    assert_eq!(g.play_turn(1, 1, Some(2)), Ok(()));
    assert!(!g.is_game_over());
    assert_eq!(g.play_turn(2, 2, Some(3)), Ok(()));
    assert!(!g.is_game_over());
    // pieces 0..3 share two unset attributes along the main diagonal
    assert_eq!(g.play_turn(3, 3, None), Ok(()));
    assert!(g.is_game_over());
    assert_eq!(g.judge_winner(), Some(GameResult::Winner(Player::Player2)));
    assert_eq!(g.status(), GameStatus::Finished(GameResult::Winner(Player::Player2)));
}

#[test]
fn full_board_without_winning_line_is_a_draw() {
    let mut g = Game::new();
    for r in 0..4 {
        for c in 0..4 {
            assert_eq!(g.piece_in_hand(), Some(DRAW_GRID[r][c]));
            let give = if r == 3 && c == 3 {
                None
            } else {
                let (nr, nc) = if c == 3 { (r + 1, 0) } else { (r, c + 1) };
                Some(DRAW_GRID[nr][nc])
            };
            assert!(!g.is_game_over());
            assert_eq!(g.play_turn(r, c, give), Ok(()));
        }
    }
    assert!(g.is_game_over());
    assert_eq!(g.judge_winner(), Some(GameResult::Draw));
}

#[test]
fn out_of_bounds_turn_is_refused_and_changes_nothing() {
    let mut g = Game::new();
    assert_eq!(g.play_turn(4, 0, Some(1)), Err(GameError::OutOfBounds));
    assert_eq!(g.play_turn(0, 9, Some(1)), Err(GameError::OutOfBounds));
    assert!(!g.is_game_over());
    assert_eq!(g.piece_in_hand(), Some(0));
    assert_eq!(g.turn(), Player::Player1);
    for r in 0..4 {
        for c in 0..4 {
            assert_eq!(g.board().grid[r][c], None);
        }
    }
    assert!(g.available_pieces()[1]);
}

#[test]
fn handing_over_a_placed_piece_is_refused_and_changes_nothing() {
    let mut g = Game::new();
    assert_eq!(g.play_turn(0, 0, Some(1)), Ok(()));
    // piece 0 was just placed: it is no longer available to hand over
    assert_eq!(g.play_turn(1, 1, Some(0)), Err(GameError::InvalidPieceIndex));
    assert_eq!(g.board().grid[1][1], None);
    assert_eq!(g.piece_in_hand(), Some(1));
    assert_eq!(g.turn(), Player::Player2);
    assert!(!g.is_game_over());
}

#[test]
fn handing_over_no_piece_while_pieces_remain_is_refused() {
    let mut g = Game::new();
    assert_eq!(g.play_turn(0, 0, None), Err(GameError::InvalidPieceIndex));
    assert_eq!(g.board().grid[0][0], None);
    assert_eq!(g.play_turn(0, 0, Some(16)), Err(GameError::InvalidPieceIndex));
    assert_eq!(g.piece_in_hand(), Some(0));
}

#[test]
fn placing_on_an_occupied_cell_is_refused_and_changes_nothing() {
    let mut g = Game::new();
    assert_eq!(g.play_turn(0, 0, Some(1)), Ok(()));
    assert_eq!(g.play_turn(0, 0, Some(2)), Err(GameError::CellOccupied));
    assert_eq!(g.board().grid[0][0], Some(piece_from_index(0)));
    assert_eq!(g.piece_in_hand(), Some(1));
    assert_eq!(g.turn(), Player::Player2);
    assert!(g.available_pieces()[2]);
}

#[test]
fn no_turn_is_accepted_once_the_game_is_over() {
    let mut g = Game::new();
    g.play_turn(0, 0, Some(1)).unwrap();
    g.play_turn(1, 1, Some(2)).unwrap();
    g.play_turn(2, 2, Some(3)).unwrap();
    g.play_turn(3, 3, None).unwrap();
    assert!(g.is_game_over());
    assert_eq!(g.play_turn(0, 1, Some(5)), Err(GameError::GameOver));
    assert_eq!(g.judge_winner(), Some(GameResult::Winner(Player::Player2)));
    assert_eq!(g.board().grid[0][1], None);
    assert!(g.available_pieces()[5]);
}
