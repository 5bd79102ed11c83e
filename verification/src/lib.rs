//! The simulation core of a fixed-viewport arcade shooter.
//!
//! A formation of enemies sweeps from side to side, steps down when it
//! reaches a margin, and shoots; the player moves along the bottom, shoots
//! back and has three lives. A cleared wave opens a faster level.
//!
//! The core is a step function: [`world::World::step`] takes the world, the
//! time since the last frame and the decoded keys, and leaves the world of the
//! next frame. It draws nothing and reads no device. Lengths are whole
//! micro-pixels and times whole microseconds, so that no rounding stands
//! between the rules and what is proved of them.
//!
//! Every type has a view in mathematical integers and sequences
//! ([`model::WorldView`] for the world), every system is a function on views
//! ([`model::WorldView::frame`] for a whole frame), and every executable
//! function is verified to compute what the function on views says. The
//! module [`laws`] states what follows for the game as a whole.
//!
//! The one thing taken on trust is the random pick of the enemy that shoots,
//! which comes from the `rand` crate (see [`firing`]).

pub mod geometry;
pub mod rules;
pub mod timer;
pub mod entities;
pub mod spawn;
pub mod movement;
pub mod firing;
pub mod collision;
pub mod progress;
pub mod model;
pub mod soundness;
pub mod world;
pub mod laws;
