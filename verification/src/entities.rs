//! Enemies, the direction of the formation, the terminal state and the input of a frame.

use vstd::prelude::*;
use crate::geometry::{Point, Position};

verus! {

/// The view of an [`Enemy`].
pub struct EnemyView {
    pub id: nat,
    pub at: Point,
}

/// One enemy of the wave. No two enemies of a wave have the same `id`.
#[derive(Clone, Copy, Debug, PartialEq, Eq)]
pub struct Enemy {
    pub id: u32,
    pub pos: Position,
}

impl View for Enemy {
    type V = EnemyView;

    open spec fn view(&self) -> EnemyView {
        EnemyView { id: self.id as nat, at: self.pos@ }
    }
}

/// The views of a sequence of positions.
pub open spec fn points(s: Seq<Position>) -> Seq<Point> {
    s.map_values(|p: Position| p@)
}

/// The view of a position that may be missing.
pub open spec fn point_of(p: Option<Position>) -> Option<Point> {
    match p {
        Some(q) => Some(q@),
        None => None,
    }
}

/// The views of a sequence of enemies.
pub open spec fn wave_view(s: Seq<Enemy>) -> Seq<EnemyView> {
    s.map_values(|e: Enemy| e@)
}

/// The direction in which the whole formation sweeps.
#[derive(Clone, Copy, Debug, PartialEq, Eq, Structural)]
pub enum Heading {
    Left,
    Right,
}

impl Heading {
    pub open spec fn spec_reversed(self) -> Heading {
        match self {
            Heading::Left => Heading::Right,
            Heading::Right => Heading::Left,
        }
    }

    /// The opposite direction.
    #[verifier::when_used_as_spec(spec_reversed)]
    pub fn reversed(self) -> (r: Heading)
        ensures
            r == self.spec_reversed(),
    {
        match self {
            Heading::Left => Heading::Right,
            Heading::Right => Heading::Left,
        }
    }
}

/// Whether the game goes on, and how it ended if it does not.
#[derive(Clone, Copy, Debug, PartialEq, Eq, Structural)]
pub enum TerminalState {
    Playing,
    Won,
    Lost,
}

/// The decoded input of one frame. `left`, `right` and `fire` say that a key is
/// held; `restart` and `advance` say that a key went down in this frame.
#[derive(Clone, Copy, Debug, PartialEq, Eq, Structural)]
pub struct Input {
    pub left: bool,
    pub right: bool,
    pub fire: bool,
    pub restart: bool,
    pub advance: bool,
}

impl Input {
    /// The direction signal: -1 for left, +1 for right, 0 for neither or both.
    pub open spec fn axis(self) -> int {
        (if self.right { 1int } else { 0int }) - (if self.left { 1int } else { 0int })
    }
}

} // verus!
