//! The numbers of the game.
//!
//! Lengths are in micro-pixels, times in microseconds, speeds in pixels per
//! second: a speed times a time is then a length in micro-pixels.

use vstd::prelude::*;
use crate::geometry::UNIT;

verus! {

/// Horizontal speed of the player.
pub const PLAYER_SPEED: u64 = 300;

/// Upward speed of a player shot.
pub const PLAYER_SHOT_SPEED: u64 = 500;

/// Downward speed of an enemy shot.
pub const ENEMY_SHOT_SPEED: u64 = 250;

/// Speed of the formation on the first level.
pub const BASE_ENEMY_SPEED: u64 = 100;

/// What every further level adds to the speed of the formation.
pub const ENEMY_SPEED_STEP: u64 = 50;

/// Time between two chances of the player to shoot.
pub const PLAYER_COOLDOWN: u64 = 300_000;

/// Time between two enemy shots.
pub const ENEMY_COOLDOWN: u64 = 1_200_000;

/// Distance that the centre of an enemy keeps from either side of the viewport.
pub const MARGIN: i64 = 20 * UNIT;

/// Distance by which the formation descends when it reverses.
pub const STEP_DOWN: i64 = 20 * UNIT;

/// Vertical distance between a shooter and the shot it releases.
pub const MUZZLE_OFFSET: i64 = 20 * UNIT;

/// A player shot above this height leaves the world.
pub const SHOT_CEILING: i64 = 300 * UNIT;

/// An enemy shot below this height leaves the world.
pub const SHOT_FLOOR: i64 = -320 * UNIT;

/// The game is lost once an enemy is at this height or below.
pub const FLOOR_LINE: i64 = -250 * UNIT;

/// Where the player appears.
pub const PLAYER_HOME_X: i64 = 0;

/// The height at which the player stays.
pub const PLAYER_HOME_Y: i64 = -200 * UNIT;

/// Rows of a wave.
pub const WAVE_ROWS: u32 = 5;

/// Enemies in a row of a wave.
pub const WAVE_COLUMNS: u32 = 8;

/// Enemies in a fresh wave.
pub const WAVE_SIZE: u32 = 40;

/// Centre of the leftmost column of a fresh wave.
pub const WAVE_LEFT: i64 = -210 * UNIT;

/// Centre of the lowest row of a fresh wave.
pub const WAVE_BOTTOM: i64 = 100 * UNIT;

/// Distance between the centres of neighbouring columns.
pub const COLUMN_SPACING: i64 = 60 * UNIT;

/// Distance between the centres of neighbouring rows.
pub const ROW_SPACING: i64 = 40 * UNIT;

/// Points for one enemy.
pub const KILL_SCORE: u64 = 100;

/// The score at which the older of the two winning rules declares the game won.
pub const WIN_SCORE: u64 = 4000;

/// Lives at the start of a game.
pub const START_LIVES: u32 = 3;

/// Half the width of the narrowest viewport that holds a fresh wave inside the margins.
pub const MIN_HALF_WIDTH: i64 = 230 * UNIT;

} // verus!
