//! Move-selection policies.
//!
//! A policy is asked for an action on a game that is still going on. Every
//! policy returns a legal action: an empty cell for the piece in hand, and an
//! available piece to hand over — or none, only when no piece is left to give
//! or the placement itself ends the match.
//!
//! `RandomPolicy` draws any legal action from a seeded pseudo-random
//! generator, so runs are reproducible for a given seed.

use vstd::prelude::*;
use crate::game::{Game, GameView, game_wf, hand_piece};
use crate::board::wins_at;

verus! {

/// A policy's decision: where to place the piece currently in hand, and which
/// piece to hand to the opponent next.
#[derive(Clone, Copy, PartialEq, Eq, Structural, Debug)]
pub struct Action {
    /// Row of the cell to place the piece in hand on.
    pub row: usize,
    /// Column of the cell to place the piece in hand on.
    pub col: usize,
    /// The inventory slot to hand to the opponent; `None` only when no piece
    /// is left to give or the placement itself ends the match.
    pub piece_to_give: Option<usize>,
}

/// The action fits the game: it targets an empty cell, and it hands over an
/// available piece — unless none is left to give, or the placement itself
/// wins and the handover is moot.
pub open spec fn action_legal(g: GameView, a: Action) -> bool {
    &&& a.row < 4 && a.col < 4
    &&& g.board[a.row as int][a.col as int] is None
    &&& (a.piece_to_give matches Some(i) ==> i < 16 && g.available[i as int])
    &&& (a.piece_to_give is None ==> {
        ||| (forall|i: int| 0 <= i < 16 ==> !g.available[i])
        ||| wins_at(g.board, a.row as int, a.col as int, hand_piece(g))
    })
}

/// A move-selection strategy: a pure function of the game it is given, apart
/// from the policy's own source of randomness.
pub trait Policy: Sized {
    /// What this policy guarantees about the action it selects, beyond
    /// legality.
    spec fn action_spec(&self, g: GameView, a: Action) -> bool;

    /// Select the action to take on the current turn.
    fn action(&mut self, game: &Game) -> (a: Action)
        requires
            game_wf(game@),
            game@.status is InProgress,
        ensures
            action_legal(game@, a),
            old(self).action_spec(game@, a),
    ;
}

/// One step of the xorshift pseudo-random sequence.
pub open spec fn spec_xorshift(s: u64) -> u64 {
    let a = s ^ (s << 13);
    let b = a ^ (a >> 7);
    b ^ (b << 17)
}

/// Selects any legal action, drawn from a seeded xorshift generator.
pub struct RandomPolicy {
    state: u64,
}

impl View for RandomPolicy {
    type V = u64;

    closed spec fn view(&self) -> u64 {
        self.state
    }
}

impl RandomPolicy {
    /// A policy drawing from a pseudo-random generator seeded with `seed`
    /// (a zero seed is replaced, since xorshift would stay at zero).
    pub fn new(seed: u64) -> (p: RandomPolicy)
        ensures
            p@ == (if seed == 0 { 0x9E3779B97F4A7C15u64 } else { seed }),
    {
        RandomPolicy { state: if seed == 0 { 0x9E3779B97F4A7C15u64 } else { seed } }
    }

    /// The next value of the pseudo-random sequence.
    fn next_random(&mut self) -> (v: u64)
        ensures
            v == spec_xorshift(old(self)@),
            final(self)@ == spec_xorshift(old(self)@),
    {
        let s = self.state;
        let a = s ^ (s << 13);
        let b = a ^ (a >> 7);
        let v = b ^ (b << 17);
        self.state = v;
        v
    }
}

impl Policy for RandomPolicy {
    /// Nothing is promised of the draw beyond legality.
    open spec fn action_spec(&self, g: GameView, a: Action) -> bool {
        true
    }

    fn action(&mut self, game: &Game) -> (a: Action) {
        let board = game.board();
        let mut cells: Vec<(usize, usize)> = Vec::new();
        let mut r: usize = 0;
        while r < 4
            invariant
                r <= 4,
                board@ == game@.board,
                forall|j: int| 0 <= j < cells.len() ==> {
                    let rc = #[trigger] cells[j];
                    rc.0 < 4 && rc.1 < 4 && game@.board[rc.0 as int][rc.1 as int] is None
                },
                forall|r2: int, c2: int|
                    0 <= r2 < r && 0 <= c2 < 4 && (#[trigger] game@.board[r2][c2]) is None
                        ==> cells.len() > 0,
            decreases 4 - r,
        {
            let mut c: usize = 0;
            while c < 4
                invariant
                    r < 4,
                    c <= 4,
                    board@ == game@.board,
                    forall|j: int| 0 <= j < cells.len() ==> {
                        let rc = #[trigger] cells[j];
                        rc.0 < 4 && rc.1 < 4 && game@.board[rc.0 as int][rc.1 as int] is None
                    },
                    forall|r2: int, c2: int|
                        0 <= r2 < r && 0 <= c2 < 4 && (#[trigger] game@.board[r2][c2]) is None
                            ==> cells.len() > 0,
                    forall|c2: int|
                        0 <= c2 < c && (#[trigger] game@.board[r as int][c2]) is None
                            ==> cells.len() > 0,
                decreases 4 - c,
            {
                if board.grid[r][c].is_none() {
                    proof {
                        assert(board@[r as int][c as int] is None);
                    }
                    cells.push((r, c));
                }
                c = c + 1;
            }
            r = r + 1;
        }
        proof {
            assert(!crate::board::board_full(game@.board));
            let (wr, wc) = choose|r2: int, c2: int|
                0 <= r2 < 4 && 0 <= c2 < 4 && !((#[trigger] game@.board[r2][c2]) is Some);
            assert(game@.board[wr][wc] is None);
            assert(cells@.len() > 0);
        }
        let pick = self.next_random() % (cells.len() as u64);
        let (row, col) = cells[pick as usize];

        let avail = game.available_pieces();
        let mut pieces: Vec<usize> = Vec::new();
        let mut i: usize = 0;
        while i < 16
            invariant
                i <= 16,
                avail@ == game@.available,
                game@.available.len() == 16,
                forall|j: int| 0 <= j < pieces.len() ==> {
                    let k = #[trigger] pieces[j];
                    k < 16 && game@.available[k as int]
                },
                forall|k: int| 0 <= k < i && game@.available[k] ==> pieces.len() > 0,
            decreases 16 - i,
        {
            if avail[i] {
                pieces.push(i);
            }
            i = i + 1;
        }
        let piece_to_give = if pieces.len() > 0 {
            let pick2 = self.next_random() % (pieces.len() as u64);
            Some(pieces[pick2 as usize])
        } else {
            None
        };
        Action { row, col, piece_to_give }
    }
}

} // verus!
