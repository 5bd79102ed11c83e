//! The detector of the terminal state: it decides after each frame whether
//! the game goes on, is won or is lost.

use vstd::prelude::*;
use crate::entities::{point_of, wave_view, Enemy, EnemyView, TerminalState};
use crate::geometry::{boxes_overlap, overlaps, Kind, Point, Position};
use crate::rules::FLOOR_LINE;

verus! {

/// Some enemy has come down to the floor line.
pub open spec fn breached(wave: Seq<EnemyView>) -> bool {
    exists|i: int| 0 <= i < wave.len() && (#[trigger] wave[i]).at.y <= FLOOR_LINE
}

/// The box of an enemy overlaps the box of the player.
pub open spec fn enemy_hits_player(e: EnemyView, player: Point) -> bool {
    boxes_overlap(e.at, Kind::Enemy, player, Kind::Player)
}

/// Some enemy has reached the player itself.
pub open spec fn rammed(wave: Seq<EnemyView>, player: Option<Point>) -> bool {
    match player {
        Some(p) => exists|i: int| 0 <= i < wave.len() && enemy_hits_player(#[trigger] wave[i], p),
        None => false,
    }
}

/// The terminal state after the detector has run. A game that is over stays
/// as it is. A game that goes on is lost if an enemy is at the floor line or
/// at the player, and won if no enemy is left.
pub open spec fn verdict(
    state: TerminalState,
    wave: Seq<EnemyView>,
    player: Option<Point>,
) -> TerminalState {
    if state != TerminalState::Playing {
        state
    } else if breached(wave) || rammed(wave, player) {
        TerminalState::Lost
    } else if wave.len() == 0 {
        TerminalState::Won
    } else {
        TerminalState::Playing
    }
}

/// Says whether an enemy has come down to the floor line.
pub fn floor_reached(wave: &Vec<Enemy>) -> (reached: bool)
    ensures
        reached == breached(wave_view(wave@)),
{
    let mut i: usize = 0;
    while i < wave.len()
        invariant
            i <= wave.len(),
            forall|k: int| 0 <= k < i ==> (#[trigger] wave_view(wave@)[k]).at.y > FLOOR_LINE,
        decreases wave.len() - i,
    {
        if wave[i].pos.y <= FLOOR_LINE {
            assert(wave_view(wave@)[i as int].at.y <= FLOOR_LINE);
            return true;
        }
        i += 1;
    }
    false
}

/// Says whether an enemy has reached the player.
pub fn player_rammed(wave: &Vec<Enemy>, player: Option<Position>) -> (hit: bool)
    ensures
        hit == rammed(wave_view(wave@), point_of(player)),
{
    let target = match player {
        Some(p) => p,
        None => {
            return false;
        },
    };
    let mut i: usize = 0;
    while i < wave.len()
        invariant
            i <= wave.len(),
            player == Some(target),
            forall|k: int|
                0 <= k < i ==> !enemy_hits_player(#[trigger] wave_view(wave@)[k], target@),
        decreases wave.len() - i,
    {
        if overlaps(wave[i].pos, Kind::Enemy, target, Kind::Player) {
            assert(enemy_hits_player(wave_view(wave@)[i as int], target@));
            return true;
        }
        i += 1;
    }
    false
}

/// Runs the detector.
pub fn evaluate(state: TerminalState, wave: &Vec<Enemy>, player: Option<Position>) -> (next:
    TerminalState)
    ensures
        next == verdict(state, wave_view(wave@), point_of(player)),
{
    match state {
        TerminalState::Playing => {
            if floor_reached(wave) || player_rammed(wave, player) {
                TerminalState::Lost
            } else if wave.len() == 0 {
                TerminalState::Won
            } else {
                TerminalState::Playing
            }
        },
        TerminalState::Won => TerminalState::Won,
        TerminalState::Lost => TerminalState::Lost,
    }
}

} // verus!
