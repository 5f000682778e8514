//! Tests of the move-selection policies.

use quart_engine::game::{Game, GameResult, Player};
use quart_engine::lookahead::OneStepLookAheadPolicy;
use quart_engine::piece::piece_from_index;
use quart_engine::policy::{Action, Policy, RandomPolicy};

/// A full-board arrangement with no winning line anywhere: the piece placed
/// at `(r, c)` is `DRAW_GRID[r][c]`.
const DRAW_GRID: [[usize; 4]; 4] = [
    [0, 14, 9, 7],
    [13, 3, 4, 10],
    [6, 8, 15, 1],
    [11, 5, 2, 12],
];

#[test]
fn random_policy_returns_a_legal_action_on_a_fresh_game() {
    let g = Game::new();
    let mut p = RandomPolicy::new(42);
    let a = p.action(&g);
    assert!(a.row < 4 && a.col < 4);
    match a.piece_to_give {
        Some(i) => {
            assert!(i < 16);
            assert!(g.available_pieces()[i]);
            assert_ne!(i, 0);
        },
        None => panic!("fifteen pieces are still available"),
    }
}

#[test]
fn random_policy_never_picks_an_occupied_cell_or_a_spent_piece() {
    let mut g = Game::new();
    g.play_turn(0, 0, Some(7)).unwrap();
    g.play_turn(1, 2, Some(11)).unwrap();
    for seed in 0..20u64 {
        let mut p = RandomPolicy::new(seed);
        let a = p.action(&g);
        assert!(a.row < 4 && a.col < 4);
        assert_eq!(g.board().grid[a.row][a.col], None);
        let i = a.piece_to_give.unwrap();
        assert!(g.available_pieces()[i]);
    }
}

#[test]
fn random_policy_is_reproducible_for_a_seed() {
    let g = Game::new();
    let mut p1 = RandomPolicy::new(7);
    let mut p2 = RandomPolicy::new(7);
    assert_eq!(p1.action(&g), p2.action(&g));
}

#[test]
fn lookahead_takes_an_immediate_win() {
    let mut g = Game::new();
    g.play_turn(0, 0, Some(1)).unwrap();
    g.play_turn(0, 1, Some(2)).unwrap();
    g.play_turn(0, 2, Some(3)).unwrap();
    // pieces 0, 1, 2 stand in row 0 and share two attributes with piece 3,
    // which is now in hand: (0, 3) completes a winning row.
    let mut p = OneStepLookAheadPolicy::new();
    let a = p.action(&g);
    assert_eq!(a, Action { row: 0, col: 3, piece_to_give: None });
    assert_eq!(g.play_turn(a.row, a.col, a.piece_to_give), Ok(()));
    assert!(g.is_game_over());
}

#[test]
fn lookahead_avoids_handing_the_opponent_a_winning_piece() {
    let mut g = Game::new();
    // Build two threats: row 0 holds pieces 1, 2, 8 (only the round attribute
    // is commonly unset) and row 1 holds pieces 9, 10, 12 (only the solid
    // attribute is commonly set). Piece 0 is parked at (3, 3). Piece 4 ends
    // in hand; it completes neither threat.
    g.play_turn(3, 3, Some(1)).unwrap();
    g.play_turn(0, 0, Some(2)).unwrap();
    g.play_turn(0, 1, Some(8)).unwrap();
    g.play_turn(0, 2, Some(9)).unwrap();
    g.play_turn(1, 0, Some(10)).unwrap();
    g.play_turn(1, 1, Some(12)).unwrap();
    g.play_turn(1, 2, Some(4)).unwrap();
    assert_eq!(g.piece_in_hand(), Some(4));

    let mut p = OneStepLookAheadPolicy::new();
    let a = p.action(&g);
    // First empty cell in row-major order is (0, 3); placing piece 4 there
    // defuses the row-0 threat. A third threat runs along the main diagonal
    // (pieces 1, 10, 0 all lack the round attribute), so piece 3 would win
    // for the opponent at (2, 2): piece 5 is the first safe handover.
    assert_eq!(a, Action { row: 0, col: 3, piece_to_give: Some(5) });

    // Exhaustive simulation: after playing the action, the opponent cannot
    // win by placing the handed piece on any empty cell.
    let give = a.piece_to_give.unwrap();
    assert_eq!(g.play_turn(a.row, a.col, a.piece_to_give), Ok(()));
    assert!(!g.is_game_over());
    let handed = piece_from_index(give);
    for r in 0..4 {
        for c in 0..4 {
            if g.board().grid[r][c].is_none() {
                let mut scratch = *g.board();
                scratch.place(r, c, handed).unwrap();
                assert!(!scratch.is_winning_line_through(r, c));
            }
        }
    }
}

#[test]
fn lookahead_prefers_a_win_over_the_enumeration_order() {
    let mut g = Game::new();
    // Row 1 holds pieces 9, 10, 12, which share the solid attribute; piece
    // 11 is solid too, so it wins at (1, 3) — even though the empty cells of
    // row 0 come earlier in the enumeration.
    g.play_turn(3, 3, Some(9)).unwrap();
    g.play_turn(1, 0, Some(10)).unwrap();
    g.play_turn(1, 1, Some(12)).unwrap();
    g.play_turn(1, 2, Some(11)).unwrap();
    assert_eq!(g.turn(), Player::Player1);
    let mut p = OneStepLookAheadPolicy::new();
    let a = p.action(&g);
    assert_eq!(a, Action { row: 1, col: 3, piece_to_give: None });
    assert_eq!(g.play_turn(a.row, a.col, a.piece_to_give), Ok(()));
    assert_eq!(g.judge_winner(), Some(GameResult::Winner(Player::Player1)));
}

#[test]
fn policies_hand_nothing_over_on_the_last_move() {
    let mut g = Game::new();
    for r in 0..4 {
        for c in 0..4 {
            if r == 3 && c == 3 {
                continue;
            }
            let (nr, nc) = if c == 3 { (r + 1, 0) } else { (r, c + 1) };
            g.play_turn(r, c, Some(DRAW_GRID[nr][nc])).unwrap();
        }
    }
    // 15 pieces are placed, the 16th is in hand, none is left to give.
    assert_eq!(g.piece_in_hand(), Some(DRAW_GRID[3][3]));
    for i in 0..16 {
        assert!(!g.available_pieces()[i]);
    }
    let expected = Action { row: 3, col: 3, piece_to_give: None };
    let mut p = OneStepLookAheadPolicy::new();
    assert_eq!(p.action(&g), expected);
    let mut rp = RandomPolicy::new(123);
    assert_eq!(rp.action(&g), expected);
    assert_eq!(g.play_turn(3, 3, None), Ok(()));
    assert_eq!(g.judge_winner(), Some(GameResult::Draw));
}

#[test]
fn lookahead_takes_the_first_pair_in_enumeration_order() {
    // On a fresh game no placement wins and every handover is safe, so the
    // fixed enumeration order decides: cell (0, 0), and piece 1 as the lowest
    // available piece (piece 0 is the one in hand).
    let g = Game::new();
    let mut p = OneStepLookAheadPolicy::new();
    let a = p.action(&g);
    assert_eq!(a, Action { row: 0, col: 0, piece_to_give: Some(1) });
}
