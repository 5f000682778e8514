//! The game: board, piece inventory, and the turn state machine.
//!
//! A `Game` is the sole mutable authority over a match. It is mutated only
//! through [`Game::play_turn`], which atomically places the piece currently in
//! hand and hands a chosen piece to the opponent: either both commit, or the
//! call fails and the game is left exactly as it was.
//!
//! A fresh match starts with an empty board, piece 0 in hand, the other 15
//! pieces available, and player one to move.

use vstd::prelude::*;
use crate::piece::{Piece, spec_piece_from_index, piece_from_index, PIECE_COUNT};
use crate::board::{
    Board, board_place, board_full, board_wins, board_dims, wins_through, col_of, main_diag_of,
    anti_diag_of, line_wins,
};

verus! {

/// One of the two players of a match.
#[derive(Clone, Copy, PartialEq, Eq, Structural, Debug)]
pub enum Player {
    Player1,
    Player2,
}

impl Player {
    /// The opponent of `self`.
    pub open spec fn spec_other(self) -> Player {
        match self {
            Player::Player1 => Player::Player2,
            Player::Player2 => Player::Player1,
        }
    }

    /// The opponent of `self`.
    pub fn other(self) -> (p: Player)
        ensures
            p == self.spec_other(),
    {
        match self {
            Player::Player1 => Player::Player2,
            Player::Player2 => Player::Player1,
        }
    }
}

/// How a finished match ended.
#[derive(Clone, Copy, PartialEq, Eq, Structural, Debug)]
pub enum GameResult {
    /// The given player completed a winning line.
    Winner(Player),
    /// The board filled up with no winning line.
    Draw,
}

/// Where the match stands.
#[derive(Clone, Copy, PartialEq, Eq, Structural, Debug)]
pub enum GameStatus {
    /// A piece is in hand, waiting to be placed.
    InProgress,
    /// The match ended; no further mutation is accepted.
    Finished(GameResult),
}

/// Why a turn was refused. A refused turn leaves the game unchanged.
#[derive(Clone, Copy, PartialEq, Eq, Structural, Debug)]
pub enum GameError {
    /// The match is already finished.
    GameOver,
    /// No piece is currently in hand (cannot occur under normal sequencing).
    NoPieceInHand,
    /// The target row or column lies outside the grid.
    OutOfBounds,
    /// The target cell already holds a piece.
    CellOccupied,
    /// The handed-over piece index is out of range or no longer available.
    InvalidPieceIndex,
}

/// The abstract state of a game.
pub ghost struct GameView {
    /// The cells of the board.
    pub board: Seq<Seq<Option<Piece>>>,
    /// For each inventory slot, whether its piece is still available to hand
    /// over (the piece in hand and all placed pieces are not).
    pub available: Seq<bool>,
    /// The inventory slot of the piece that must be placed next, if any.
    pub in_hand: Option<usize>,
    /// Whose turn it is to place.
    pub turn: Player,
    /// Where the match stands.
    pub status: GameStatus,
}

/// Every state a game can reach satisfies this invariant.
pub open spec fn game_wf(g: GameView) -> bool {
    &&& board_dims(g.board)
    &&& g.available.len() == 16
    &&& (g.in_hand matches Some(i) ==> i < 16 && !g.available[i as int])
    &&& (g.status is InProgress ==> g.in_hand is Some)
    &&& (g.status is InProgress ==> !board_full(g.board) && !board_wins(g.board))
    &&& (g.status matches GameStatus::Finished(res) ==> match res {
        GameResult::Winner(_) => board_wins(g.board),
        GameResult::Draw => board_full(g.board) && !board_wins(g.board),
    })
}

/// The piece that the current player must place: the one in hand.
pub open spec fn hand_piece(g: GameView) -> Piece {
    spec_piece_from_index(g.in_hand->Some_0 as int)
}

/// The outcome of one turn: the state after the call and what it returned.
///
/// This is the full transition relation of the turn state machine. A turn is
/// refused, with the game unchanged, when the match is finished (`GameOver`),
/// no piece is in hand (`NoPieceInHand`), the cell lies outside the grid
/// (`OutOfBounds`) or is occupied (`CellOccupied`), or — with the game going
/// on after the placement — when the handed-over piece is out of range or not
/// available (`InvalidPieceIndex`). Otherwise the piece in hand is placed: a
/// winning line through the cell finishes the match for the placing player, a
/// full board finishes it as a draw (the handover argument is ignored in both
/// cases), and otherwise the handed-over piece leaves the inventory, moves in
/// hand, and the other player is to move.
pub open spec fn spec_play_turn(g: GameView, row: int, col: int, give: Option<usize>) -> (
    GameView,
    Result<(), GameError>,
) {
    if g.status is Finished {
        (g, Err(GameError::GameOver))
    } else if g.in_hand is None {
        (g, Err(GameError::NoPieceInHand))
    } else if !(0 <= row < 4 && 0 <= col < 4) {
        (g, Err(GameError::OutOfBounds))
    } else if g.board[row][col] is Some {
        (g, Err(GameError::CellOccupied))
    } else {
        let b2 = board_place(g.board, row, col, spec_piece_from_index(g.in_hand->Some_0 as int));
        if wins_through(b2, row, col) {
            (
                GameView {
                    board: b2,
                    available: g.available,
                    in_hand: None,
                    turn: g.turn,
                    status: GameStatus::Finished(GameResult::Winner(g.turn)),
                },
                Ok(()),
            )
        } else if board_full(b2) {
            (
                GameView {
                    board: b2,
                    available: g.available,
                    in_hand: None,
                    turn: g.turn,
                    status: GameStatus::Finished(GameResult::Draw),
                },
                Ok(()),
            )
        } else {
            match give {
                Some(i) => if i < 16 && g.available[i as int] {
                    (
                        GameView {
                            board: b2,
                            available: g.available.update(i as int, false),
                            in_hand: Some(i),
                            turn: g.turn.spec_other(),
                            status: GameStatus::InProgress,
                        },
                        Ok(()),
                    )
                } else {
                    (g, Err(GameError::InvalidPieceIndex))
                },
                None => (g, Err(GameError::InvalidPieceIndex)),
            }
        }
    }
}

/// A match: one board, the piece inventory, and the turn state machine.
pub struct Game {
    board: Board,
    available_pieces: [bool; 16],
    piece_in_hand: Option<usize>,
    turn: Player,
    status: GameStatus,
}

impl View for Game {
    type V = GameView;

    closed spec fn view(&self) -> GameView {
        GameView {
            board: self.board@,
            available: self.available_pieces@,
            in_hand: self.piece_in_hand,
            turn: self.turn,
            status: self.status,
        }
    }
}

impl Game {
    /// A fresh match: empty board, piece 0 in hand, the other 15 pieces
    /// available, player one to move.
    pub fn new() -> (g: Game)
        ensures
            game_wf(g@),
            g@.board.len() == 4,
            forall|r: int, c: int| 0 <= r < 4 && 0 <= c < 4 ==> g@.board[r][c] is None,
            g@.available.len() == 16,
            forall|i: int| 0 <= i < 16 ==> g@.available[i] == (i != 0),
            g@.in_hand == Some(0usize),
            g@.turn == Player::Player1,
            g@.status == GameStatus::InProgress,
    {
        let board = Board::new();
        let mut available_pieces = [true; 16];
        available_pieces[0] = false;
        let g = Game {
            board,
            available_pieces,
            piece_in_hand: Some(0),
            turn: Player::Player1,
            status: GameStatus::InProgress,
        };
        proof {
            let b = g@.board;
            assert(!board_full(b)) by {
                assert(b[0][0] is None);
            }
            assert(!board_wins(b)) by {
                assert(forall|r: int| 0 <= r < 4 ==> (#[trigger] b[r])[0] is None);
                assert(forall|c: int| 0 <= c < 4 ==> col_of(b, c)[0] is None);
                assert(main_diag_of(b)[0] is None);
                assert(anti_diag_of(b)[0] is None);
            }
        }
        g
    }

    /// Place the piece in hand at `(row, col)` and hand `piece_to_give` to
    /// the opponent, atomically, as [`spec_play_turn`] states: a winning
    /// placement finishes the match for the placing player, a board-filling
    /// one finishes it as a draw, and any refused turn leaves the game
    /// exactly as it was.
    pub fn play_turn(&mut self, row: usize, col: usize, piece_to_give: Option<usize>) -> (r:
        Result<(), GameError>)
        requires
            game_wf(old(self)@),
        ensures
            game_wf(final(self)@),
            final(self)@ == spec_play_turn(old(self)@, row as int, col as int, piece_to_give).0,
            r == spec_play_turn(old(self)@, row as int, col as int, piece_to_give).1,
            r is Err ==> final(self)@ == old(self)@,
            old(self)@.status is Finished ==> r == Err::<(), GameError>(GameError::GameOver),
            forall|r2: int, c2: int|
                0 <= r2 < 4 && 0 <= c2 < 4 && old(self)@.board[r2][c2] is Some
                    ==> final(self)@.board[r2][c2] == old(self)@.board[r2][c2],
    {
        match self.status {
            GameStatus::Finished(_) => {
                return Err(GameError::GameOver);
            },
            GameStatus::InProgress => {},
        }
        let hand = match self.piece_in_hand {
            Some(i) => i,
            None => {
                return Err(GameError::NoPieceInHand);
            },
        };
        if row >= 4 || col >= 4 {
            return Err(GameError::OutOfBounds);
        }
        if self.board.grid[row][col].is_some() {
            proof {
                assert(self@.board[row as int][col as int] is Some);
            }
            return Err(GameError::CellOccupied);
        }
        proof {
            assert(self@.board[row as int][col as int] is None);
        }
        let piece = piece_from_index(hand);
        let mut new_board = self.board;
        let _ = new_board.place(row, col, piece);
        let ghost b2 = board_place(old(self)@.board, row as int, col as int, piece);
        if new_board.is_winning_line_through(row, col) {
            self.board = new_board;
            self.piece_in_hand = None;
            self.status = GameStatus::Finished(GameResult::Winner(self.turn));
            proof {
                assert(board_wins(b2)) by {
                    if line_wins(b2[row as int]) {
                        assert(exists|r2: int| 0 <= r2 < 4 && line_wins(#[trigger] b2[r2])) by {
                            assert(0 <= (row as int) < 4 && line_wins(b2[row as int]));
                        }
                    } else if line_wins(col_of(b2, col as int)) {
                        assert(exists|c2: int| 0 <= c2 < 4 && line_wins(
                            #[trigger] col_of(b2, c2),
                        )) by {
                            assert(0 <= (col as int) < 4 && line_wins(col_of(b2, col as int)));
                        }
                    }
                }
            }
            return Ok(());
        }
        proof {
            crate::board::lemma_win_localized(old(self)@.board, row as int, col as int, piece);
        }
        if new_board.is_full() {
            self.board = new_board;
            self.piece_in_hand = None;
            self.status = GameStatus::Finished(GameResult::Draw);
            return Ok(());
        }
        match piece_to_give {
            Some(i) => {
                if i < PIECE_COUNT && self.available_pieces[i] {
                    self.board = new_board;
                    self.available_pieces[i] = false;
                    self.piece_in_hand = Some(i);
                    self.turn = self.turn.other();
                    Ok(())
                } else {
                    Err(GameError::InvalidPieceIndex)
                }
            },
            None => Err(GameError::InvalidPieceIndex),
        }
    }

    /// Whether the match is finished, by a win or by a draw.
    pub fn is_game_over(&self) -> (over: bool)
        ensures
            over == (self@.status is Finished),
    {
        match self.status {
            GameStatus::Finished(_) => true,
            GameStatus::InProgress => false,
        }
    }

    /// How the match ended: the winner, a draw, or `None` while it is still
    /// going on.
    pub fn judge_winner(&self) -> (outcome: Option<GameResult>)
        ensures
            outcome == (match self@.status {
                GameStatus::InProgress => None::<GameResult>,
                GameStatus::Finished(res) => Some(res),
            }),
    {
        match self.status {
            GameStatus::InProgress => None,
            GameStatus::Finished(res) => Some(res),
        }
    }

    /// The board of the match.
    pub fn board(&self) -> (b: &Board)
        ensures
            b@ == self@.board,
    {
        &self.board
    }

    /// For each inventory slot, whether its piece is still available.
    pub fn available_pieces(&self) -> (a: &[bool; 16])
        ensures
            a@ == self@.available,
    {
        &self.available_pieces
    }

    /// The inventory slot of the piece that must be placed next, if any.
    pub fn piece_in_hand(&self) -> (h: Option<usize>)
        ensures
            h == self@.in_hand,
    {
        self.piece_in_hand
    }

    /// Whose turn it is to place.
    pub fn turn(&self) -> (t: Player)
        ensures
            t == self@.turn,
    {
        self.turn
    }

    /// Where the match stands.
    pub fn status(&self) -> (s: GameStatus)
        ensures
            s == self@.status,
    {
        self.status
    }
}

/// Once a cell is occupied, no turn ever clears or overwrites it: whatever a
/// turn is given and whatever it returns, every occupied cell keeps its piece.
pub proof fn lemma_occupancy_preserved(
    g: GameView,
    row: int,
    col: int,
    give: Option<usize>,
    r: int,
    c: int,
)
    requires
        game_wf(g),
        0 <= r < 4,
        0 <= c < 4,
        g.board[r][c] is Some,
    ensures
        spec_play_turn(g, row, col, give).0.board[r][c] == g.board[r][c],
{
    let after = spec_play_turn(g, row, col, give).0;
    if after.board != g.board {
        assert(after.board == board_place(
            g.board,
            row,
            col,
            spec_piece_from_index(g.in_hand->Some_0 as int),
        ));
        assert(!(r == row && c == col));
        if r == row {
            assert(after.board[r][c] == g.board[r].update(
                col,
                Some(spec_piece_from_index(g.in_hand->Some_0 as int)),
            )[c]);
        }
    }
}

/// A placement that completes a qualifying line finishes the match at once,
/// with the placing player as winner.
pub proof fn lemma_win_ends_game(g: GameView, row: int, col: int, give: Option<usize>)
    requires
        game_wf(g),
        g.status is InProgress,
        0 <= row < 4,
        0 <= col < 4,
        g.board[row][col] is None,
        wins_through(
            board_place(g.board, row, col, spec_piece_from_index(g.in_hand->Some_0 as int)),
            row,
            col,
        ),
    ensures
        spec_play_turn(g, row, col, give).1 == Ok::<(), GameError>(()),
        spec_play_turn(g, row, col, give).0.status == GameStatus::Finished(
            GameResult::Winner(g.turn),
        ),
{
}

/// Once the match is finished, no further turn is accepted: every later call
/// is refused with `GameOver` and leaves the game unchanged.
pub proof fn lemma_no_moves_after_finish(g: GameView, row: int, col: int, give: Option<usize>)
    requires
        g.status is Finished,
    ensures
        spec_play_turn(g, row, col, give) == (g, Err::<(), GameError>(GameError::GameOver)),
{
}

} // verus!
