//! Conway's Game of Life on a toroidal grid, with every operation verified
//! against a mathematical model of the board.
pub mod board;
pub mod cell;
pub mod laws;
pub mod universe;

pub use board::Board;
pub use cell::Cell;
pub use universe::Universe;
