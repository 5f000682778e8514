//! The 4x4 board and its win-detection logic.
//!
//! A cell is either empty or holds one placed piece. The lines considered for
//! win detection are the four rows, the four columns, and the two diagonals:
//! a line wins exactly when all four of its cells are occupied and, for at
//! least one of the four attributes, all four pieces agree on its value.

use vstd::prelude::*;
use crate::piece::Piece;

verus! {

/// Side length of the board.
pub const BOARD_SIZE: usize = 4;

/// Why a placement on the board was refused.
#[derive(Clone, Copy, PartialEq, Eq, Structural, Debug)]
pub enum BoardError {
    /// The row or column lies outside the grid.
    OutOfBounds,
    /// The target cell already holds a piece.
    CellOccupied,
}

/// The 4x4 grid of cells, each empty or holding one piece.
#[derive(Clone, Copy)]
pub struct Board {
    pub grid: [[Option<Piece>; 4]; 4],
}

impl View for Board {
    type V = Seq<Seq<Option<Piece>>>;

    open spec fn view(&self) -> Seq<Seq<Option<Piece>>> {
        Seq::new(4, |r: int| Seq::new(4, |c: int| self.grid[r][c]))
    }
}

/// A board abstraction is 4 rows of 4 cells each.
pub open spec fn board_dims(b: Seq<Seq<Option<Piece>>>) -> bool {
    &&& b.len() == 4
    &&& forall|r: int| 0 <= r < 4 ==> (#[trigger] b[r]).len() == 4
}

/// The board `b` with `piece` written into the cell at `(row, col)`.
pub open spec fn board_place(
    b: Seq<Seq<Option<Piece>>>,
    row: int,
    col: int,
    piece: Piece,
) -> Seq<Seq<Option<Piece>>> {
    b.update(row, b[row].update(col, Some(piece)))
}

/// Every cell of the line holds a piece whose attribute `k` agrees with the
/// first cell's piece.
pub open spec fn all_share_attribute(line: Seq<Option<Piece>>, k: int) -> bool {
    forall|i: int| 0 <= i < 4 ==>
        (#[trigger] line[i])->Some_0.spec_attribute(k) == line[0]->Some_0.spec_attribute(k)
}

/// A full line of four pieces agreeing on at least one attribute.
pub open spec fn line_wins(line: Seq<Option<Piece>>) -> bool {
    &&& line.len() == 4
    &&& forall|i: int| 0 <= i < 4 ==> (#[trigger] line[i]) is Some
    &&& exists|k: int| 0 <= k < 4 && all_share_attribute(line, k)
}

/// Column `c` of the board, top to bottom.
pub open spec fn col_of(b: Seq<Seq<Option<Piece>>>, c: int) -> Seq<Option<Piece>> {
    Seq::new(4, |r: int| b[r][c])
}

/// The main diagonal, from `(0, 0)` to `(3, 3)`.
pub open spec fn main_diag_of(b: Seq<Seq<Option<Piece>>>) -> Seq<Option<Piece>> {
    Seq::new(4, |i: int| b[i][i])
}

/// The anti diagonal, from `(0, 3)` to `(3, 0)`.
pub open spec fn anti_diag_of(b: Seq<Seq<Option<Piece>>>) -> Seq<Option<Piece>> {
    Seq::new(4, |i: int| b[i][3 - i])
}

/// Some line passing through the cell at `(row, col)` wins.
pub open spec fn wins_through(b: Seq<Seq<Option<Piece>>>, row: int, col: int) -> bool {
    ||| line_wins(b[row])
    ||| line_wins(col_of(b, col))
    ||| (row == col && line_wins(main_diag_of(b)))
    ||| (row + col == 3 && line_wins(anti_diag_of(b)))
}

/// Placing `p` at `(row, col)` completes a winning line through that cell.
pub open spec fn wins_at(b: Seq<Seq<Option<Piece>>>, row: int, col: int, p: Piece) -> bool {
    wins_through(board_place(b, row, col, p), row, col)
}

/// Some line anywhere on the board wins.
pub open spec fn board_wins(b: Seq<Seq<Option<Piece>>>) -> bool {
    ||| exists|r: int| 0 <= r < 4 && line_wins(#[trigger] b[r])
    ||| exists|c: int| 0 <= c < 4 && line_wins(#[trigger] col_of(b, c))
    ||| line_wins(main_diag_of(b))
    ||| line_wins(anti_diag_of(b))
}

/// Every cell of the board is occupied.
pub open spec fn board_full(b: Seq<Seq<Option<Piece>>>) -> bool {
    forall|r: int, c: int| 0 <= r < 4 && 0 <= c < 4 ==> (#[trigger] b[r][c]) is Some
}

/// A placement can only create a winning line through its own cell: when a
/// board holds no winning line and a placement completes no line through the
/// changed cell, the board after the placement holds no winning line either.
pub proof fn lemma_win_localized(b: Seq<Seq<Option<Piece>>>, row: int, col: int, piece: Piece)
    requires
        board_dims(b),
        0 <= row < 4,
        0 <= col < 4,
        !board_wins(b),
        !wins_through(board_place(b, row, col, piece), row, col),
    ensures
        !board_wins(board_place(b, row, col, piece)),
{
    let b2 = board_place(b, row, col, piece);
    assert forall|r: int| 0 <= r < 4 implies !line_wins(#[trigger] b2[r]) by {
        if r != row {
            assert(b2[r] == b[r]);
        }
    }
    assert forall|c: int| 0 <= c < 4 implies !line_wins(#[trigger] col_of(b2, c)) by {
        if c != col {
            assert forall|r: int| 0 <= r < 4 implies col_of(b2, c)[r] == col_of(b, c)[r] by {
                if r == row {
                    assert(b2[row][c] == b[row][c]);
                }
            }
            assert(col_of(b2, c) =~= col_of(b, c));
        }
    }
    if row != col {
        assert forall|i: int| 0 <= i < 4 implies main_diag_of(b2)[i] == main_diag_of(b)[i] by {
            if i == row {
                assert(b2[row][i] == b[row][i]);
            }
        }
        assert(main_diag_of(b2) =~= main_diag_of(b));
    }
    if row + col != 3 {
        assert forall|i: int| 0 <= i < 4 implies anti_diag_of(b2)[i] == anti_diag_of(b)[i] by {
            if i == row {
                assert(b2[row][3 - i] == b[row][3 - i]);
            }
        }
        assert(anti_diag_of(b2) =~= anti_diag_of(b));
    }
}

/// Whether the four given cells form a winning line.
fn line_wins_exec(line: [Option<Piece>; 4]) -> (w: bool)
    ensures
        w == line_wins(line@),
{
    let (p0, p1, p2, p3) = match (line[0], line[1], line[2], line[3]) {
        (Some(p0), Some(p1), Some(p2), Some(p3)) => (p0, p1, p2, p3),
        _ => {
            return false;
        },
    };
    let mut k: usize = 0;
    while k < 4
        invariant
            k <= 4,
            line@[0] == Some(p0),
            line@[1] == Some(p1),
            line@[2] == Some(p2),
            line@[3] == Some(p3),
            forall|j: int| 0 <= j < k ==> !all_share_attribute(line@, j),
        decreases 4 - k,
    {
        let a0 = p0.attribute(k);
        if a0 == p1.attribute(k) && a0 == p2.attribute(k) && a0 == p3.attribute(k) {
            proof {
                assert(all_share_attribute(line@, k as int)) by {
                    assert(forall|i: int| 0 <= i < 4 ==>
                        (#[trigger] line@[i])->Some_0.spec_attribute(k as int)
                            == line@[0]->Some_0.spec_attribute(k as int));
                }
            }
            return true;
        }
        proof {
            assert(!all_share_attribute(line@, k as int)) by {
                if p1.spec_attribute(k as int) != p0.spec_attribute(k as int) {
                    assert(line@[1]->Some_0.spec_attribute(k as int)
                        != line@[0]->Some_0.spec_attribute(k as int));
                } else if p2.spec_attribute(k as int) != p0.spec_attribute(k as int) {
                    assert(line@[2]->Some_0.spec_attribute(k as int)
                        != line@[0]->Some_0.spec_attribute(k as int));
                } else {
                    assert(line@[3]->Some_0.spec_attribute(k as int)
                        != line@[0]->Some_0.spec_attribute(k as int));
                }
            }
        }
        k = k + 1;
    }
    false
}

impl Board {
    /// A board with every cell empty.
    pub fn new() -> (b: Board)
        ensures
            b@.len() == 4,
            forall|r: int, c: int| 0 <= r < 4 && 0 <= c < 4 ==> b@[r][c] is None,
    {
        Board { grid: [[None, None, None, None], [None, None, None, None], [
            None,
            None,
            None,
            None,
        ], [None, None, None, None]] }
    }

    /// Store `piece` in the cell at `(row, col)`.
    ///
    /// Refused with `OutOfBounds` when the coordinates lie outside the grid
    /// and with `CellOccupied` when the target cell already holds a piece; a
    /// refused placement leaves the board unchanged.
    pub fn place(&mut self, row: usize, col: usize, piece: Piece) -> (r: Result<(), BoardError>)
        ensures
            row < 4 && col < 4 && old(self)@[row as int][col as int] is None ==> {
                &&& r == Ok::<(), BoardError>(())
                &&& final(self)@ == board_place(old(self)@, row as int, col as int, piece)
            },
            !(row < 4 && col < 4) ==> {
                &&& r == Err::<(), BoardError>(BoardError::OutOfBounds)
                &&& final(self)@ == old(self)@
            },
            row < 4 && col < 4 && old(self)@[row as int][col as int] is Some ==> {
                &&& r == Err::<(), BoardError>(BoardError::CellOccupied)
                &&& final(self)@ == old(self)@
            },
    {
        if row >= 4 || col >= 4 {
            return Err(BoardError::OutOfBounds);
        }
        if self.grid[row][col].is_some() {
            return Err(BoardError::CellOccupied);
        }
        self.grid[row][col] = Some(piece);
        proof {
            assert(self@ =~~= board_place(old(self)@, row as int, col as int, piece));
        }
        Ok(())
    }

    /// Whether some line through the cell at `(row, col)` wins: its row, its
    /// column, and whichever diagonals pass through it.
    pub fn is_winning_line_through(&self, row: usize, col: usize) -> (w: bool)
        requires
            row < 4,
            col < 4,
        ensures
            w == wins_through(self@, row as int, col as int),
    {
        let row_line = [self.grid[row][0], self.grid[row][1], self.grid[row][2], self.grid[row][3]];
        proof {
            assert(row_line@ =~= self@[row as int]);
        }
        if line_wins_exec(row_line) {
            return true;
        }
        let col_line = [self.grid[0][col], self.grid[1][col], self.grid[2][col], self.grid[3][col]];
        proof {
            assert(col_line@ =~= col_of(self@, col as int));
        }
        if line_wins_exec(col_line) {
            return true;
        }
        if row == col {
            let diag = [self.grid[0][0], self.grid[1][1], self.grid[2][2], self.grid[3][3]];
            proof {
                assert(diag@ =~= main_diag_of(self@));
            }
            if line_wins_exec(diag) {
                return true;
            }
        }
        if row + col == 3 {
            let anti = [self.grid[0][3], self.grid[1][2], self.grid[2][1], self.grid[3][0]];
            proof {
                assert(anti@ =~= anti_diag_of(self@));
            }
            if line_wins_exec(anti) {
                return true;
            }
        }
        false
    }

    /// Whether every cell of the board is occupied.
    pub fn is_full(&self) -> (f: bool)
        ensures
            f == board_full(self@),
    {
        let mut r: usize = 0;
        while r < 4
            invariant
                r <= 4,
                forall|r2: int, c2: int| 0 <= r2 < r && 0 <= c2 < 4 ==>
                    (#[trigger] self@[r2][c2]) is Some,
            decreases 4 - r,
        {
            let mut c: usize = 0;
            while c < 4
                invariant
                    r < 4,
                    c <= 4,
                    forall|r2: int, c2: int| 0 <= r2 < r && 0 <= c2 < 4 ==>
                        (#[trigger] self@[r2][c2]) is Some,
                    forall|c2: int| 0 <= c2 < c ==> (#[trigger] self@[r as int][c2]) is Some,
                decreases 4 - c,
            {
                if self.grid[r][c].is_none() {
                    proof {
                        assert(self@[r as int][c as int] is None);
                    }
                    return false;
                }
                c = c + 1;
            }
            r = r + 1;
        }
        true
    }
}

} // verus!
