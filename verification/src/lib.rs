//! Rules engine for Ultimate Tic-Tac-Toe: a 3x3 grid of 3x3 sub-boards.
//!
//! `common` holds the coordinate arithmetic, the magic-square win detection
//! and the `Board` capability trait; `local_board` is one 3x3 sub-board;
//! `global_board` composes nine sub-boards into the meta-game.

pub mod common;
pub mod global_board;
pub mod local_board;
