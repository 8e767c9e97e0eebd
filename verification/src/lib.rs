//! A verified core for Conway's Game of Life on a toroidal grid.
//!
//! The `board` module holds the grid representation and the wrap-around
//! neighbor addressing; the `engine` module applies the life/death rule to
//! every cell of a board to produce the next generation.

pub mod board;
pub mod engine;
