//! Decision core for a real-time arena-game bot.
//!
//! The crate ingests periodic world snapshots, keeps bounded per-entity
//! history, answers predictive geometric and scoring queries, and drives a
//! composable, resumable behavior engine that emits at most one command per
//! tick.
//!
//! All quantities are fixed-point integers: lengths in milli-pixels, speeds
//! in milli-pixels per second, angles in millidegrees (a full turn is
//! 360 000), times in milliseconds, and throttle in thousandths of the
//! full-throttle fraction.

pub mod analyzer;
pub mod behavior;
pub mod bullet;
mod entropy;
pub mod geom;
pub mod history;
pub mod models;
pub mod player;
pub mod wire;

use vstd::prelude::*;
use crate::models::{ClientState, GameCommand};

verus! {

/// The hook a bot implements to play: once per tick, while alive, it may
/// analyze the world and emit at most one command.
pub trait Handler {
    fn tick(&mut self, state: &ClientState) -> Option<GameCommand>;
}

} // verus!
