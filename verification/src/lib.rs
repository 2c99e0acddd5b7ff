//! Core of a weighted bingo simulation: drawing index sets without
//! replacement, deciding wins on a 5x5 board, laying out the score of a
//! game, planning a week of games and keeping the run's tallies.
//!
//! Scores and weights are real-valued and are computed by the caller; this
//! library decides *which* tiles and weights enter each sum and *which*
//! update rule each weight receives, and proves those decisions correct.

pub mod filename;
pub mod game;
pub mod sampling;
pub mod stats;
pub mod week;
pub mod win;
