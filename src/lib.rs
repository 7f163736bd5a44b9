//! Game-state engine for a falling-block puzzle game.
pub mod active;
pub mod board;
pub mod grid;
pub mod keys;
mod random;
pub mod tetris;
pub mod tetromino;
