//! A two-player board game in which tokens lock in place, and a brute-force
//! search for a move that leads to a win.

pub mod board;
pub mod laws;
pub mod model;
pub mod pieces;
pub mod render;
pub mod solver;

pub use pieces::{c, Cell, Coordinate, Move, Player, Token, WinState};
pub use board::Board;
pub use model::BoardView;
pub use solver::Solver;
