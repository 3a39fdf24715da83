//! A rules engine for an 8x8 checkers variant.
//!
//! The engine owns the board, lists the moves it will accept from each
//! color, makes moves with their captures and promotions, and passes the
//! turn.  Chained jumps, forced captures and the end of a game are no
//! part of it.
//!
//! * [`board`]: colors, pieces, positions and moves.
//! * [`grid`]: the 64 squares and what stands on them.
//! * [`cache`]: the list of moves kept for each color.
//! * [`rules`]: the rules of movement as mathematical functions.
//! * [`state`]: the state of a game as a mathematical value.
//! * [`game`]: the engine itself.
//! * [`laws`]: what holds of all of it.
//! * [`seq_facts`]: facts about sequences that the proofs rest on.

pub mod board;
pub mod cache;
pub mod game;
pub mod grid;
pub mod laws;
pub mod rules;
pub mod seq_facts;
pub mod state;
