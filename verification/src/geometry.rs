//! Positions, entity kinds and bounding boxes.
//!
//! Lengths are whole numbers of micro-pixels, so that a speed in pixels per
//! second times a time in microseconds is a length without rounding.

use vstd::prelude::*;

verus! {

/// Micro-pixels in one pixel.
pub const UNIT: i64 = 1_000_000;

pub const PLAYER_HALF_WIDTH: i64 = 25 * UNIT;

pub const PLAYER_HALF_HEIGHT: i64 = 10 * UNIT;

pub const ENEMY_HALF_WIDTH: i64 = 20 * UNIT;

pub const ENEMY_HALF_HEIGHT: i64 = 10 * UNIT;

pub const SHOT_HALF_WIDTH: i64 = 2_500_000;

pub const SHOT_HALF_HEIGHT: i64 = 7_500_000;

/// A point of the playfield in unbounded integers: the view of a [`Position`].
pub struct Point {
    pub x: int,
    pub y: int,
}

/// The centre of an entity, in micro-pixels. `y` grows upwards.
#[derive(Clone, Copy, Debug, PartialEq, Eq)]
pub struct Position {
    pub x: i64,
    pub y: i64,
}

impl View for Position {
    type V = Point;

    open spec fn view(&self) -> Point {
        Point { x: self.x as int, y: self.y as int }
    }
}

/// The four kinds of entity. The kind fixes the half-extents of the bounding box.
#[derive(Clone, Copy, Debug, PartialEq, Eq)]
pub enum Kind {
    Player,
    Enemy,
    PlayerShot,
    EnemyShot,
}

impl Kind {
    /// Half the width of the bounding box of an entity of this kind.
    pub open spec fn half_width(self) -> int {
        match self {
            Kind::Player => PLAYER_HALF_WIDTH as int,
            Kind::Enemy => ENEMY_HALF_WIDTH as int,
            Kind::PlayerShot => SHOT_HALF_WIDTH as int,
            Kind::EnemyShot => SHOT_HALF_WIDTH as int,
        }
    }

    /// Half the height of the bounding box of an entity of this kind.
    pub open spec fn half_height(self) -> int {
        match self {
            Kind::Player => PLAYER_HALF_HEIGHT as int,
            Kind::Enemy => ENEMY_HALF_HEIGHT as int,
            Kind::PlayerShot => SHOT_HALF_HEIGHT as int,
            Kind::EnemyShot => SHOT_HALF_HEIGHT as int,
        }
    }

    /// The half-extents of the bounding box: half the width, then half the height.
    pub fn half_extents(self) -> (r: (i64, i64))
        ensures
            r.0 == self.half_width(),
            r.1 == self.half_height(),
    {
        match self {
            Kind::Player => (PLAYER_HALF_WIDTH, PLAYER_HALF_HEIGHT),
            Kind::Enemy => (ENEMY_HALF_WIDTH, ENEMY_HALF_HEIGHT),
            Kind::PlayerShot => (SHOT_HALF_WIDTH, SHOT_HALF_HEIGHT),
            Kind::EnemyShot => (SHOT_HALF_WIDTH, SHOT_HALF_HEIGHT),
        }
    }
}

/// Two open intervals, each given by centre and half length, share a point.
pub open spec fn spans_meet(a: int, a_half: int, b: int, b_half: int) -> bool {
    a - a_half < b + b_half && b - b_half < a + a_half
}

/// The bounding boxes of two entities intersect strictly on both axes.
pub open spec fn boxes_overlap(a: Point, a_kind: Kind, b: Point, b_kind: Kind) -> bool {
    &&& spans_meet(a.x, a_kind.half_width(), b.x, b_kind.half_width())
    &&& spans_meet(a.y, a_kind.half_height(), b.y, b_kind.half_height())
}

/// Tests two entities for overlap of their bounding boxes.
pub fn overlaps(a: Position, a_kind: Kind, b: Position, b_kind: Kind) -> (hit: bool)
    ensures
        hit == boxes_overlap(a@, a_kind, b@, b_kind),
{
    let (a_half_w, a_half_h) = a_kind.half_extents();
    let (b_half_w, b_half_h) = b_kind.half_extents();
    let reach_x: i128 = a_half_w as i128 + b_half_w as i128;
    let reach_y: i128 = a_half_h as i128 + b_half_h as i128;
    let dx: i128 = a.x as i128 - b.x as i128;
    let dy: i128 = a.y as i128 - b.y as i128;
    -reach_x < dx && dx < reach_x && -reach_y < dy && dy < reach_y
}

} // verus!
