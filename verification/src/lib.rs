//! Core simulation of an arcade territory-claiming game: a player draws lines
//! across a bounded grid, closing a line claims the traced cells and their
//! surroundings, enemies bounce off walls, claimed ground and the active line,
//! and reaching a reveal threshold advances the level.
//!
//! All world coordinates are fixed-point integers in milli-pixels, so every
//! piece of the simulation is deterministic integer arithmetic.

use vstd::prelude::*;

pub mod audio;
pub mod collision;
pub mod count;
pub mod enemy;
pub mod geom;
pub mod grid;
pub mod images;
pub mod level;
pub mod player;
pub mod rng;
pub mod scores;
pub mod world;

verus! {

/// Number of cells along each axis of the square play-field grid.
pub const GRID_SIZE: usize = 80;

/// Side length of one grid cell, in milli-pixels (10 pixels).
pub const CELL_MPX: i64 = 10000;

/// Half the play-field width, in milli-pixels (400 pixels).
pub const HALF_WIDTH_MPX: i64 = 400000;

/// Half the play-field height, in milli-pixels (300 pixels).
pub const HALF_HEIGHT_MPX: i64 = 300000;

/// Player speed in milli-pixels per second (200 pixels per second).
pub const PLAYER_SPEED_MPX: i64 = 200000;

/// Base enemy speed in milli-pixels per second (150 pixels per second).
pub const BASE_ENEMY_SPEED_MPX: i64 = 150000;

/// Number of enemies roaming the field.
pub const NUM_ENEMIES: usize = 3;

/// Lives the player starts with.
pub const STARTING_LIVES: i32 = 3;

/// How long the completed image is shown before the next level, in milliseconds.
pub const LEVEL_DISPLAY_MS: u64 = 10000;

/// How long an enemy flashes after a bounce, in milliseconds.
pub const BOUNCE_FLASH_MS: u64 = 200;

/// Player-enemy collision distance (two cell sides), in milli-pixels.
pub const COLLISION_RADIUS_MPX: i64 = 20000;

/// Upper bound on the elapsed time of a single tick, in milliseconds.
/// It keeps the player from skipping over more than one cell per axis in
/// one tick, which upholds the adjacency invariant of the active path.
pub const MAX_TICK_MS: u64 = 50;

} // verus!
