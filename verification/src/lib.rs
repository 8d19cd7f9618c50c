//! Core of a two-player turn-based grid combat game. Each player places a
//! fixed number of ships on a square grid; players then alternate firing at
//! single cells of the opponent's grid until one side has no ships left. The
//! board model (placement validation, shot resolution, sink bookkeeping) and
//! the match controller (turn order, win condition) are verified; terminal
//! input and output live outside the library.

pub mod board;
pub mod game;
pub mod words;
