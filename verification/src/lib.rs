//! A verified rules engine and move-selection AI for Quarto.
//!
//! Players alternately place pieces with four binary attributes onto a 4x4
//! grid; each move also hands the opponent the specific piece they must place
//! next. A placement wins when four pieces sharing at least one common
//! attribute line up in a row, column, or diagonal.

pub mod piece;
pub mod board;
pub mod game;
pub mod policy;
pub mod lookahead;
