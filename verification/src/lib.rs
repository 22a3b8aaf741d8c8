//! Deterministic tick-driven simulation core for a multiplayer snake game on a
//! toroidal grid: per-tick movement, input arbitration, collision detection
//! with partial-body penalty and temporary invulnerability, apple consumption
//! and growth, and win detection via a sustained-lead hold timer.

use vstd::prelude::*;

pub mod ai;
pub mod apple;
pub mod arbitration;
pub mod collision;
pub mod coordinate;
pub mod direction;
pub mod game;
pub mod score;
pub mod snake;
pub mod win;

mod rng;

verus! {

/// Half extent of the default board: cells span [-HALF_LEN, HALF_LEN] on both axes.
pub const HALF_LEN: i32 = 7;

/// Full side length of the default board in cells travelled edge to edge.
pub const BOARD_LEN: i32 = 2 * HALF_LEN;

/// Largest number of simultaneous snakes in one round.
pub const MAX_NUMBER_OF_PLAYERS: usize = 4;

} // verus!
