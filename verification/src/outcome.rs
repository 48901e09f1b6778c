//! How a game stands, and why a move can be refused.

use vstd::prelude::*;

verus! {

/// How a game stands.
#[derive(Clone, Copy, Debug, PartialEq, Eq, Structural)]
pub enum GameEnd {
    /// Every cell is taken and nobody has four in a row.
    Draw,
    /// The game is still open.
    Ongoing,
    /// The player with this index has four in a row.
    Win(usize),
}

/// Why a piece could not be dropped.
#[derive(Clone, Copy, Debug, PartialEq, Eq, Structural)]
pub enum ErrorKind {
    /// The column number is 0 or greater than the board's width.
    ColumnOutOfRange,
    /// The column has no empty cell left.
    ColumnFull,
}

impl ErrorKind {
    /// The sentence shown to the player.
    pub fn message(&self) -> (text: &'static str)
        ensures
            text@ == match *self {
                ErrorKind::ColumnOutOfRange => "Column index out of bounds"@,
                ErrorKind::ColumnFull => "Column is full"@,
            },
    {
        match self {
            ErrorKind::ColumnOutOfRange => "Column index out of bounds",
            ErrorKind::ColumnFull => "Column is full",
        }
    }
}

} // verus!
