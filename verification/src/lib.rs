//! A deterministic, tick-driven single-player Tetris-style simulation engine.
//!
//! The engine advances one frame at a time from a controller sample and two
//! pseudo-random sources, and returns an ordered event list describing
//! everything observable: piece spawns, moves, rotations, spin detections,
//! locks, line clears, garbage send/receive and game over. All timing is
//! integer frame counts; gravity is an integer accumulator in 1/100-cell
//! units.

use vstd::prelude::*;

mod board;
mod config;
mod events;
mod game;
mod input;
mod laws;
mod piece;
mod rng;

pub use board::{Board, LockResult};
pub use config::GameConfig;
pub use events::Event;
pub use game::{FallingState, Game, GameState};
pub use input::Controller;
pub use piece::{FallingPiece, Piece, TspinStatus};

verus! {

} // verus!
