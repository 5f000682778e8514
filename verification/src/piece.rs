//! Pieces: immutable bundles of four independent binary attributes.
//!
//! The standard inventory has 16 pieces, one for each combination of the four
//! attributes. Piece number `i` carries attribute `k` exactly when bit `k` of
//! `i` is set, so pieces are identified by their slot index throughout the
//! engine.

use vstd::prelude::*;

verus! {

/// How many pieces the standard inventory holds.
pub const PIECE_COUNT: usize = 16;

/// One game token: four independent binary attributes.
///
/// Identity is the attribute tuple; no two inventory pieces share it.
#[derive(Clone, Copy, PartialEq, Eq, Structural, Debug)]
pub struct Piece {
    pub tall: bool,
    pub light: bool,
    pub round: bool,
    pub solid: bool,
}

impl Piece {
    /// The value of attribute `k`: 0 = tall, 1 = light, 2 = round, 3 = solid.
    pub open spec fn spec_attribute(self, k: int) -> bool {
        if k == 0 {
            self.tall
        } else if k == 1 {
            self.light
        } else if k == 2 {
            self.round
        } else {
            self.solid
        }
    }

    /// The value of attribute `k`: 0 = tall, 1 = light, 2 = round, 3 = solid.
    pub fn attribute(self, k: usize) -> (b: bool)
        requires
            k < 4,
        ensures
            b == self.spec_attribute(k as int),
    {
        if k == 0 {
            self.tall
        } else if k == 1 {
            self.light
        } else if k == 2 {
            self.round
        } else {
            self.solid
        }
    }
}

/// The piece stored in inventory slot `i`: attribute `k` is set exactly when
/// bit `k` of `i` is set.
pub open spec fn spec_piece_from_index(i: int) -> Piece {
    Piece {
        tall: i % 2 == 1,
        light: (i / 2) % 2 == 1,
        round: (i / 4) % 2 == 1,
        solid: (i / 8) % 2 == 1,
    }
}

/// The piece stored in inventory slot `i`: attribute `k` is set exactly when
/// bit `k` of `i` is set.
pub fn piece_from_index(i: usize) -> (p: Piece)
    requires
        i < PIECE_COUNT,
    ensures
        p == spec_piece_from_index(i as int),
{
    Piece {
        tall: i % 2 == 1,
        light: (i / 2) % 2 == 1,
        round: (i / 4) % 2 == 1,
        solid: (i / 8) % 2 == 1,
    }
}

} // verus!
