//! The one-step-lookahead policy.
//!
//! For the current decision it searches one ply ahead over the joint choice
//! "where do I place the piece in hand" and "which piece do I then hand my
//! opponent". Candidates are enumerated in a fixed order — row-major cells,
//! ascending piece index within a cell — and the first of the best class is
//! taken: a placement that wins at once; else a pair whose handover gives the
//! opponent no immediate win; else the first legal pair, losing being
//! unavoidable. Every simulation runs on a scratch copy of the board; the
//! live game is never mutated.

use vstd::prelude::*;
use crate::piece::{Piece, spec_piece_from_index, piece_from_index};
use crate::board::{Board, board_place, board_full, wins_at};
use crate::game::{Game, GameView, game_wf, hand_piece};
use crate::policy::{Action, Policy};

verus! {

/// Placing `p` on the empty cell `(row, col)` of `b` wins at once.
pub open spec fn win_cell(b: Seq<Seq<Option<Piece>>>, p: Piece, row: int, col: int) -> bool {
    &&& 0 <= row < 4 && 0 <= col < 4
    &&& b[row][col] is None
    &&& wins_at(b, row, col, p)
}

/// Some cell yields an immediate win for the piece `p`.
pub open spec fn exists_win_cell(b: Seq<Seq<Option<Piece>>>, p: Piece) -> bool {
    exists|row: int, col: int| win_cell(b, p, row, col)
}

/// On board `b` — the board after the current player's own placement —
/// handing over the piece of slot `i` is safe: no empty cell lets the
/// opponent win with it at once.
#[verifier::opaque]
pub open spec fn safe_handover(b: Seq<Seq<Option<Piece>>>, i: int) -> bool {
    forall|row: int, col: int|
        0 <= row < 4 && 0 <= col < 4 && (#[trigger] b[row][col]) is None
            ==> !wins_at(b, row, col, spec_piece_from_index(i))
}

/// `(row, col, i)` is a legal move: an empty cell for the piece in hand, and
/// an available piece to hand over.
pub open spec fn pair_legal(g: GameView, row: int, col: int, i: int) -> bool {
    &&& 0 <= row < 4 && 0 <= col < 4 && g.board[row][col] is None
    &&& 0 <= i < 16 && g.available[i]
}

/// The legal move `(row, col, i)` hands the opponent no immediate win after
/// the piece in hand lands on `(row, col)`.
pub open spec fn pair_safe(g: GameView, row: int, col: int, i: int) -> bool {
    &&& pair_legal(g, row, col, i)
    &&& safe_handover(board_place(g.board, row, col, hand_piece(g)), i)
}

/// Some legal move is safe.
pub open spec fn exists_safe_pair(g: GameView) -> bool {
    exists|row: int, col: int, i: int| pair_safe(g, row, col, i)
}

/// Some piece is still available to hand over.
pub open spec fn exists_available(g: GameView) -> bool {
    exists|i: int| 0 <= i < 16 && g.available[i]
}

/// The position of a cell in the fixed enumeration order: row-major.
pub open spec fn cell_order(row: int, col: int) -> int {
    row * 4 + col
}

/// The position of a `(cell, piece)` pair in the fixed enumeration order:
/// row-major cells, ascending piece index within a cell.
pub open spec fn pair_order(row: int, col: int, i: int) -> int {
    (row * 4 + col) * 16 + i
}

/// What the one-step-lookahead policy returns, pinned down exactly.
///
/// If any cell yields an immediate win for the piece in hand, the action is
/// the first such cell, with no handover. Otherwise, if any legal move is
/// safe, the action is the first safe move. Otherwise, if a piece is left to
/// give, the action is the first legal move. Otherwise the action is the
/// first empty cell with no handover.
pub open spec fn one_step_choice(g: GameView, a: Action) -> bool {
    let b = g.board;
    let p = hand_piece(g);
    if exists_win_cell(b, p) {
        &&& win_cell(b, p, a.row as int, a.col as int)
        &&& a.piece_to_give is None
        &&& forall|row: int, col: int|
            win_cell(b, p, row, col) ==> cell_order(a.row as int, a.col as int) <= cell_order(
                row,
                col,
            )
    } else if exists_safe_pair(g) {
        &&& a.piece_to_give is Some
        &&& pair_safe(g, a.row as int, a.col as int, a.piece_to_give->Some_0 as int)
        &&& forall|row: int, col: int, i: int|
            pair_safe(g, row, col, i) ==> pair_order(
                a.row as int,
                a.col as int,
                a.piece_to_give->Some_0 as int,
            ) <= pair_order(row, col, i)
    } else if exists_available(g) {
        &&& a.piece_to_give is Some
        &&& pair_legal(g, a.row as int, a.col as int, a.piece_to_give->Some_0 as int)
        &&& forall|row: int, col: int, i: int|
            pair_legal(g, row, col, i) ==> pair_order(
                a.row as int,
                a.col as int,
                a.piece_to_give->Some_0 as int,
            ) <= pair_order(row, col, i)
    } else {
        &&& a.row < 4 && a.col < 4 && g.board[a.row as int][a.col as int] is None
        &&& a.piece_to_give is None
        &&& forall|row: int, col: int|
            0 <= row < 4 && 0 <= col < 4 && (#[trigger] g.board[row][col]) is None
                ==> cell_order(a.row as int, a.col as int) <= cell_order(row, col)
    }
}

/// Whether placing `p` on the empty cell `(row, col)` wins at once, decided
/// on a scratch copy of the board.
fn would_win(board: &Board, row: usize, col: usize, p: Piece) -> (w: bool)
    requires
        row < 4,
        col < 4,
        board@[row as int][col as int] is None,
    ensures
        w == wins_at(board@, row as int, col as int, p),
{
    let mut scratch = *board;
    let _ = scratch.place(row, col, p);
    scratch.is_winning_line_through(row, col)
}

/// Whether handing over the piece of slot `i` is safe on board `b` — the
/// board after the current player's own placement: the opponent must have no
/// winning cell for it.
fn handover_is_safe(b: &Board, i: usize) -> (s: bool)
    requires
        i < 16,
    ensures
        s == safe_handover(b@, i as int),
{
    let p = piece_from_index(i);
    let mut row: usize = 0;
    while row < 4
        invariant
            row <= 4,
            p == spec_piece_from_index(i as int),
            forall|r2: int, c2: int|
                0 <= r2 < row && 0 <= c2 < 4 && (#[trigger] b@[r2][c2]) is None
                    ==> !wins_at(b@, r2, c2, p),
        decreases 4 - row,
    {
        let mut col: usize = 0;
        while col < 4
            invariant
                row < 4,
                col <= 4,
                p == spec_piece_from_index(i as int),
                forall|r2: int, c2: int|
                    0 <= r2 < row && 0 <= c2 < 4 && (#[trigger] b@[r2][c2]) is None
                        ==> !wins_at(b@, r2, c2, p),
                forall|c2: int|
                    0 <= c2 < col && (#[trigger] b@[row as int][c2]) is None
                        ==> !wins_at(b@, row as int, c2, p),
            decreases 4 - col,
        {
            if b.grid[row][col].is_none() {
                proof {
                    assert(b@[row as int][col as int] is None);
                }
                if would_win(b, row, col, p) {
                    proof {
                        reveal(safe_handover);
                    }
                    return false;
                }
            } else {
                proof {
                    assert(b@[row as int][col as int] is Some);
                }
            }
            col = col + 1;
        }
        row = row + 1;
    }
    proof {
        reveal(safe_handover);
    }
    true
}

/// The lowest available piece index whose handover is safe once the piece in
/// hand has landed on `(row, col)`, giving board `after`.
fn first_safe_give(game: &Game, after: &Board, row: usize, col: usize) -> (res: Option<usize>)
    requires
        game_wf(game@),
        row < 4,
        col < 4,
        game@.board[row as int][col as int] is None,
        after@ == board_place(game@.board, row as int, col as int, hand_piece(game@)),
    ensures
        res matches Some(i) ==> {
            &&& i < 16
            &&& pair_safe(game@, row as int, col as int, i as int)
            &&& forall|i2: int| 0 <= i2 < i ==> !pair_safe(game@, row as int, col as int, i2)
        },
        res is None ==> forall|i2: int|
            0 <= i2 < 16 ==> !pair_safe(game@, row as int, col as int, i2),
{
    let avail = game.available_pieces();
    let mut i: usize = 0;
    while i < 16
        invariant
            i <= 16,
            row < 4,
            col < 4,
            avail@ == game@.available,
            game@.available.len() == 16,
            game@.board[row as int][col as int] is None,
            after@ == board_place(game@.board, row as int, col as int, hand_piece(game@)),
            forall|i2: int| 0 <= i2 < i ==> !pair_safe(game@, row as int, col as int, i2),
        decreases 16 - i,
    {
        if avail[i] {
            if handover_is_safe(after, i) {
                return Some(i);
            }
        }
        i = i + 1;
    }
    None
}

/// The first empty cell of the board in row-major order.
fn first_empty_cell(board: &Board) -> (rc: (usize, usize))
    requires
        !board_full(board@),
    ensures
        rc.0 < 4 && rc.1 < 4,
        board@[rc.0 as int][rc.1 as int] is None,
        forall|row: int, col: int|
            0 <= row < 4 && 0 <= col < 4 && (#[trigger] board@[row][col]) is None
                ==> cell_order(rc.0 as int, rc.1 as int) <= cell_order(row, col),
{
    let mut row: usize = 0;
    while row < 4
        invariant
            row <= 4,
            forall|r2: int, c2: int|
                0 <= r2 < row && 0 <= c2 < 4 ==> (#[trigger] board@[r2][c2]) is Some,
        decreases 4 - row,
    {
        let mut col: usize = 0;
        while col < 4
            invariant
                row < 4,
                col <= 4,
                forall|r2: int, c2: int|
                    0 <= r2 < row && 0 <= c2 < 4 ==> (#[trigger] board@[r2][c2]) is Some,
                forall|c2: int| 0 <= c2 < col ==> (#[trigger] board@[row as int][c2]) is Some,
            decreases 4 - col,
        {
            if board.grid[row][col].is_none() {
                proof {
                    assert(board@[row as int][col as int] is None);
                }
                return (row, col);
            }
            proof {
                assert(board@[row as int][col as int] is Some);
            }
            col = col + 1;
        }
        row = row + 1;
    }
    proof {
        assert(board@[0][0] is Some);
        assert(false);
    }
    (0, 0)
}

/// Searches one ply ahead: prefers an immediate win, else a safe handover,
/// else falls back to the first legal move.
pub struct OneStepLookAheadPolicy {}

impl OneStepLookAheadPolicy {
    /// A fresh policy; it holds no state between calls.
    pub fn new() -> OneStepLookAheadPolicy {
        OneStepLookAheadPolicy {  }
    }
}

impl Policy for OneStepLookAheadPolicy {
    /// The selection rule [`one_step_choice`], in full.
    open spec fn action_spec(&self, g: GameView, a: Action) -> bool {
        one_step_choice(g, a)
    }

    #[verifier::rlimit(60)]
    fn action(&mut self, game: &Game) -> (a: Action) {
        let hand = game.piece_in_hand().unwrap();
        let p = piece_from_index(hand);
        let board = *game.board();
        proof {
            assert(p == hand_piece(game@));
        }
        // First pass: the first cell where the piece in hand wins at once.
        let mut row: usize = 0;
        while row < 4
            invariant
                row <= 4,
                board@ == game@.board,
                p == hand_piece(game@),
                game_wf(game@),
                game@.status is InProgress,
                forall|r2: int, c2: int|
                    0 <= r2 < row && 0 <= c2 < 4 ==> !win_cell(game@.board, p, r2, c2),
            decreases 4 - row,
        {
            let mut col: usize = 0;
            while col < 4
                invariant
                    row < 4,
                    col <= 4,
                    board@ == game@.board,
                    p == hand_piece(game@),
                    game_wf(game@),
                    game@.status is InProgress,
                    forall|r2: int, c2: int|
                        0 <= r2 < row && 0 <= c2 < 4 ==> !win_cell(game@.board, p, r2, c2),
                    forall|c2: int| 0 <= c2 < col ==> !win_cell(game@.board, p, row as int, c2),
                decreases 4 - col,
            {
                if board.grid[row][col].is_none() {
                    proof {
                        assert(board@[row as int][col as int] is None);
                    }
                    if would_win(&board, row, col, p) {
                        proof {
                            assert(win_cell(game@.board, p, row as int, col as int));
                            assert forall|r2: int, c2: int|
                                win_cell(game@.board, p, r2, c2) implies cell_order(
                                row as int,
                                col as int,
                            ) <= cell_order(r2, c2) by {
                                if cell_order(r2, c2) < cell_order(row as int, col as int) {
                                    if r2 < row {
                                        assert(!win_cell(game@.board, p, r2, c2));
                                    } else {
                                        assert(r2 == row && c2 < col);
                                        assert(!win_cell(game@.board, p, r2, c2));
                                    }
                                }
                            }
                        }
                        return Action { row, col, piece_to_give: None };
                    }
                } else {
                    proof {
                        assert(board@[row as int][col as int] is Some);
                    }
                }
                col = col + 1;
            }
            row = row + 1;
        }
        proof {
            assert(!exists_win_cell(game@.board, p));
        }
        // Second pass: the first (cell, piece) pair whose handover is safe.
        let avail = game.available_pieces();
        let mut row: usize = 0;
        while row < 4
            invariant
                row <= 4,
                board@ == game@.board,
                avail@ == game@.available,
                p == hand_piece(game@),
                game_wf(game@),
                game@.status is InProgress,
                !exists_win_cell(game@.board, p),
                forall|r2: int, c2: int, i2: int|
                    0 <= r2 < row && 0 <= c2 < 4 && 0 <= i2 < 16
                        ==> !pair_safe(game@, r2, c2, i2),
            decreases 4 - row,
        {
            let mut col: usize = 0;
            while col < 4
                invariant
                    row < 4,
                    col <= 4,
                    board@ == game@.board,
                    avail@ == game@.available,
                    p == hand_piece(game@),
                    game_wf(game@),
                    game@.status is InProgress,
                    !exists_win_cell(game@.board, p),
                    forall|r2: int, c2: int, i2: int|
                        0 <= r2 < row && 0 <= c2 < 4 && 0 <= i2 < 16
                            ==> !pair_safe(game@, r2, c2, i2),
                    forall|c2: int, i2: int|
                        0 <= c2 < col && 0 <= i2 < 16 ==> !pair_safe(game@, row as int, c2, i2),
                decreases 4 - col,
            {
                if board.grid[row][col].is_none() {
                    proof {
                        assert(board@[row as int][col as int] is None);
                    }
                    let mut after = board;
                    let _ = after.place(row, col, p);
                    proof {
                        assert(after@ == board_place(game@.board, row as int, col as int, p));
                    }
                    match first_safe_give(game, &after, row, col) {
                        Some(i) => {
                            proof {
                                assert forall|r2: int, c2: int, i2: int|
                                    pair_safe(game@, r2, c2, i2) implies pair_order(
                                    row as int,
                                    col as int,
                                    i as int,
                                ) <= pair_order(r2, c2, i2) by {
                                    if pair_order(r2, c2, i2) < pair_order(
                                        row as int,
                                        col as int,
                                        i as int,
                                    ) {
                                        if r2 < row {
                                            assert(!pair_safe(game@, r2, c2, i2));
                                        } else if r2 == row && c2 < col {
                                            assert(!pair_safe(game@, r2, c2, i2));
                                        } else {
                                            assert(r2 == row && c2 == col && i2 < i);
                                            assert(!pair_safe(game@, r2, c2, i2));
                                        }
                                    }
                                }
                            }
                            return Action { row, col, piece_to_give: Some(i) };
                        },
                        None => {},
                    }
                } else {
                    proof {
                        assert(board@[row as int][col as int] is Some);
                    }
                }
                col = col + 1;
            }
            row = row + 1;
        }
        proof {
            assert(!exists_safe_pair(game@));
        }
        // Fallback: the first legal move, or the first empty cell when no
        // piece is left to give.
        proof {
            assert(!board_full(game@.board));
        }
        let rc = first_empty_cell(&board);
        let mut i: usize = 0;
        while i < 16
            invariant
                i <= 16,
                board@ == game@.board,
                avail@ == game@.available,
                p == hand_piece(game@),
                game_wf(game@),
                game@.status is InProgress,
                !exists_win_cell(game@.board, p),
                !exists_safe_pair(game@),
                rc.0 < 4 && rc.1 < 4,
                game@.board[rc.0 as int][rc.1 as int] is None,
                forall|r2: int, c2: int|
                    0 <= r2 < 4 && 0 <= c2 < 4 && (#[trigger] game@.board[r2][c2]) is None
                        ==> cell_order(rc.0 as int, rc.1 as int) <= cell_order(r2, c2),
                forall|i2: int| 0 <= i2 < i ==> !game@.available[i2],
            decreases 16 - i,
        {
            if avail[i] {
                proof {
                    assert(pair_legal(game@, rc.0 as int, rc.1 as int, i as int));
                    assert forall|r2: int, c2: int, i2: int|
                        pair_legal(game@, r2, c2, i2) implies pair_order(
                        rc.0 as int,
                        rc.1 as int,
                        i as int,
                    ) <= pair_order(r2, c2, i2) by {
                        assert(cell_order(rc.0 as int, rc.1 as int) <= cell_order(r2, c2));
                        if r2 == rc.0 as int && c2 == rc.1 as int && i2 < i {
                            assert(!game@.available[i2]);
                        }
                    }
                }
                return Action { row: rc.0, col: rc.1, piece_to_give: Some(i) };
            }
            i = i + 1;
        }
        proof {
            assert(!exists_available(game@));
        }
        Action { row: rc.0, col: rc.1, piece_to_give: None }
    }
}

} // verus!
