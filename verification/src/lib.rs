//! A tic-tac-toe engine for square boards of any width.
//!
//! - [`board`]: the board, the positions that it checks and hands out, and
//!   the operations on its cells.
//! - [`outcome`]: the lines of a board, and the rule that tells a win from a
//!   tie and from a game that goes on.
//! - [`render`]: a board as text.
//! - [`game`]: a game on three by three cells, entry by entry.

pub mod board;
pub mod game;
pub mod outcome;
pub mod render;
