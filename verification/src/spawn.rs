//! Where the player and a fresh wave appear.

use vstd::prelude::*;
use crate::entities::{wave_view, Enemy, EnemyView};
use crate::geometry::{Point, Position};
use crate::rules::{
    COLUMN_SPACING, PLAYER_HOME_X, PLAYER_HOME_Y, ROW_SPACING, WAVE_BOTTOM, WAVE_COLUMNS,
    WAVE_LEFT, WAVE_ROWS, WAVE_SIZE,
};

verus! {

/// Where the player appears, and reappears after a hit.
pub open spec fn home() -> Point {
    Point { x: PLAYER_HOME_X as int, y: PLAYER_HOME_Y as int }
}

/// The position of a player that has just appeared.
pub fn spawn_player() -> (p: Position)
    ensures
        p@ == home(),
{
    Position { x: PLAYER_HOME_X, y: PLAYER_HOME_Y }
}

/// The enemy that fills place `i` of a fresh wave. Places are counted along
/// the rows, lowest row first, each row from the left.
pub open spec fn wave_slot(i: int) -> EnemyView {
    EnemyView {
        id: i as nat,
        at: Point {
            x: WAVE_LEFT + (i % WAVE_COLUMNS as int) * COLUMN_SPACING,
            y: WAVE_BOTTOM + (i / WAVE_COLUMNS as int) * ROW_SPACING,
        },
    }
}

/// A fresh wave: a full grid, the same on every level.
pub open spec fn fresh_wave() -> Seq<EnemyView> {
    Seq::new(WAVE_SIZE as nat, |i: int| wave_slot(i))
}

/// Builds a fresh wave.
pub fn spawn_wave() -> (wave: Vec<Enemy>)
    ensures
        wave_view(wave@) == fresh_wave(),
{
    let mut wave: Vec<Enemy> = Vec::new();
    let mut row: u32 = 0;
    while row < WAVE_ROWS
        invariant
            row <= WAVE_ROWS,
            wave@.len() == row * WAVE_COLUMNS,
            forall|k: int| 0 <= k < wave@.len() ==> (#[trigger] wave@[k])@ == wave_slot(k),
        decreases WAVE_ROWS - row,
    {
        let mut col: u32 = 0;
        while col < WAVE_COLUMNS
            invariant
                row < WAVE_ROWS,
                col <= WAVE_COLUMNS,
                wave@.len() == row * WAVE_COLUMNS + col,
                forall|k: int| 0 <= k < wave@.len() ==> (#[trigger] wave@[k])@ == wave_slot(k),
            decreases WAVE_COLUMNS - col,
        {
            let x: i64 = WAVE_LEFT + (col as i64) * COLUMN_SPACING;
            let y: i64 = WAVE_BOTTOM + (row as i64) * ROW_SPACING;
            wave.push(Enemy { id: row * WAVE_COLUMNS + col, pos: Position { x, y } });
            col += 1;
        }
        row += 1;
    }
    assert(wave_view(wave@) =~= fresh_wave());
    wave
}

} // verus!
