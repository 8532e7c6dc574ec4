//! The plain values of the game: coordinates, tokens, cells, moves and
//! outcomes.

use vstd::prelude::*;

verus! {

/// A player's number. The game is played by players 0 and 1.
pub type Player = u32;

/// The position of a cell: column `x`, row `y`.
#[derive(Clone, Copy, PartialEq, Eq, Debug, Structural)]
pub struct Coordinate {
    pub x: usize,
    pub y: usize,
}

/// A piece on the board. A locked token can no longer be moved and counts
/// for its player for good.
#[derive(Clone, Copy, PartialEq, Eq, Debug, Structural)]
pub struct Token {
    pub player: Player,
    pub locked: bool,
}

/// What a position of the grid holds: nothing, or one token.
pub type Cell = Option<Token>;

/// A move: put a new token on a cell, or exchange the tokens of two cells.
#[derive(Clone, Copy, PartialEq, Eq, Debug, Structural)]
pub enum Move {
    Place(Coordinate),
    Swap(Coordinate, Coordinate),
}

/// How a game stands: still running, ended without a winner, or won.
#[derive(Clone, Copy, PartialEq, Eq, Debug, Structural)]
pub enum WinState {
    NotOver,
    Draw,
    Winner(Player),
}

/// The coordinate of column `x`, row `y`.
pub open spec fn spec_c(x: usize, y: usize) -> Coordinate {
    Coordinate { x, y }
}

/// The coordinate of column `x`, row `y`.
#[verifier::when_used_as_spec(spec_c)]
pub fn c(x: usize, y: usize) -> (r: Coordinate)
    ensures
        r == (Coordinate { x, y }),
{
    Coordinate { x, y }
}

impl Token {
    /// The character that shows this token: `x` for player 0, `o` for
    /// player 1, `h` for anyone else; a capital letter once it is locked.
    pub open spec fn spec_glyph(&self) -> char {
        if self.player == 0 {
            if self.locked { 'X' } else { 'x' }
        } else if self.player == 1 {
            if self.locked { 'O' } else { 'o' }
        } else {
            if self.locked { 'H' } else { 'h' }
        }
    }

    /// The character that shows this token.
    #[verifier::when_used_as_spec(spec_glyph)]
    pub fn glyph(&self) -> (ch: char)
        ensures
            ch == self.spec_glyph(),
    {
        if self.player == 0 {
            if self.locked { 'X' } else { 'x' }
        } else if self.player == 1 {
            if self.locked { 'O' } else { 'o' }
        } else {
            if self.locked { 'H' } else { 'h' }
        }
    }
}

} // verus!
