//! A two-player Connect Four engine: a 6x7 board under gravity, win
//! detection anchored at the last-placed disc, and a turn controller
//! that reports wins and ties.  Terminal input and output live outside
//! the library; everything here is pure board logic.

pub mod grid;
pub mod game;
pub mod render;
pub mod input;
pub mod laws;
