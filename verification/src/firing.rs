//! Shooting: the player on demand, the enemies by chance, both held back by a cooldown.

use vstd::prelude::*;
use rand::seq::IteratorRandom;
use crate::entities::{point_of, points, wave_view, Enemy, EnemyView};
use crate::geometry::{Point, Position};
use crate::rules::MUZZLE_OFFSET;
use crate::timer::Cooldown;

verus! {

/// Where a shot of the player appears.
pub open spec fn player_muzzle(p: Point) -> Point {
    Point { x: p.x, y: p.y + MUZZLE_OFFSET }
}

/// The player's shots after the player had its chance to shoot. A shot is
/// added if there is a player, its cooldown has fired and the fire key is held.
pub open spec fn player_fired(
    shots: Seq<Point>,
    player: Option<Point>,
    ready: bool,
    held: bool,
) -> Seq<Point> {
    match player {
        Some(p) => if ready && held {
            shots.push(player_muzzle(p))
        } else {
            shots
        },
        None => shots,
    }
}

/// Lets the player's cooldown run for `dt` microseconds and the player shoot
/// if it may. The cooldown starts again whenever it fires, with or without a shot.
pub fn fire_player_shot(
    shots: &mut Vec<Position>,
    player: Option<Position>,
    timer: &mut Cooldown,
    held: bool,
    dt: u32,
)
    requires
        player matches Some(p) ==> p.y + MUZZLE_OFFSET <= i64::MAX,
    ensures
        final(timer)@ == old(timer)@.advanced(dt as nat),
        points(final(shots)@) == player_fired(
            points(old(shots)@),
            point_of(player),
            old(timer)@.fires(dt as nat),
            held,
        ),
{
    let ready = timer.advance(dt);
    if ready && held {
        match player {
            Some(p) => {
                let ghost flying = points(shots@);
                shots.push(Position { x: p.x, y: p.y + MUZZLE_OFFSET });
                assert(points(shots@) =~= flying.push(player_muzzle(p@)));
            },
            None => {},
        }
    }
}

/// Where a shot of this enemy appears.
pub open spec fn enemy_muzzle(e: EnemyView) -> Point {
    Point { x: e.at.x, y: e.at.y - MUZZLE_OFFSET }
}

/// The enemy shots after enemy `pick` of the wave has shot. Without a pick, or
/// with one that names no enemy of the wave, nothing is added.
pub open spec fn enemy_fired(shots: Seq<Point>, wave: Seq<EnemyView>, pick: Option<int>) -> Seq<
    Point,
> {
    match pick {
        Some(i) => if 0 <= i < wave.len() {
            shots.push(enemy_muzzle(wave[i]))
        } else {
            shots
        },
        None => shots,
    }
}

/// The view of a pick.
pub open spec fn pick_view(pick: Option<usize>) -> Option<int> {
    match pick {
        Some(i) => Some(i as int),
        None => None,
    }
}

/// Lets enemy `pick` of the wave shoot.
pub fn release_enemy_shot(shots: &mut Vec<Position>, wave: &Vec<Enemy>, pick: Option<usize>)
    requires
        forall|i: int|
            0 <= i < wave@.len() ==> (#[trigger] wave_view(wave@)[i]).at.y - MUZZLE_OFFSET
                >= i64::MIN,
    ensures
        points(final(shots)@) == enemy_fired(
            points(old(shots)@),
            wave_view(wave@),
            pick_view(pick),
        ),
{
    match pick {
        Some(i) => {
            if i < wave.len() {
                let e = wave[i];
                assert(wave_view(wave@)[i as int] == e@);
                let ghost flying = points(shots@);
                shots.push(Position { x: e.pos.x, y: e.pos.y - MUZZLE_OFFSET });
                assert(points(shots@) =~= flying.push(enemy_muzzle(e@)));
            }
        },
        None => {},
    }
}

/// A pick that chance may make among `n` enemies: one of them, or none where there is none.
pub open spec fn fair_pick(pick: Option<int>, n: nat) -> bool {
    match pick {
        Some(i) => 0 <= i < n,
        None => n == 0,
    }
}

/// Draws one of the indices below `n` by calling `rand::seq::IteratorRandom::choose`
/// on the range from 0 to `n`, with the generator of the current thread. The
/// contract takes from `choose` that it returns an item of the range, and
/// nothing only if the range is empty. Which index comes is left open.
#[verifier::external_body]
fn choose_index(n: usize) -> (pick: Option<usize>)
    ensures
        fair_pick(pick_view(pick), n as nat),
{
    (0..n).choose(&mut rand::rng())
}

/// Lets the enemies' cooldown run for `dt` microseconds and, if it fires, the
/// enemy that `pick` names shoot.
pub fn fire_enemy_shot_with(
    shots: &mut Vec<Position>,
    wave: &Vec<Enemy>,
    timer: &mut Cooldown,
    dt: u32,
    pick: Option<usize>,
)
    requires
        forall|i: int|
            0 <= i < wave@.len() ==> (#[trigger] wave_view(wave@)[i]).at.y - MUZZLE_OFFSET
                >= i64::MIN,
    ensures
        final(timer)@ == old(timer)@.advanced(dt as nat),
        points(final(shots)@) == if old(timer)@.fires(dt as nat) {
            enemy_fired(points(old(shots)@), wave_view(wave@), pick_view(pick))
        } else {
            points(old(shots)@)
        },
{
    if timer.advance(dt) {
        release_enemy_shot(shots, wave, pick);
    }
}

/// Lets the enemies' cooldown run for `dt` microseconds and, if it fires, one
/// enemy of the wave shoot. Chance picks the enemy and the pick is returned;
/// that every enemy has the same weight is the promise of `rand`, and no
/// part of this contract.
pub fn fire_enemy_shot(
    shots: &mut Vec<Position>,
    wave: &Vec<Enemy>,
    timer: &mut Cooldown,
    dt: u32,
) -> (pick: Option<usize>)
    requires
        forall|i: int|
            0 <= i < wave@.len() ==> (#[trigger] wave_view(wave@)[i]).at.y - MUZZLE_OFFSET
                >= i64::MIN,
    ensures
        final(timer)@ == old(timer)@.advanced(dt as nat),
        old(timer)@.fires(dt as nat) ==> fair_pick(pick_view(pick), wave@.len()),
        !old(timer)@.fires(dt as nat) ==> pick is None,
        points(final(shots)@) == enemy_fired(points(old(shots)@), wave_view(wave@), pick_view(pick)),
{
    if timer.advance(dt) {
        let pick = choose_index(wave.len());
        release_enemy_shot(shots, wave, pick);
        pick
    } else {
        None
    }
}

} // verus!
