//! Movement of the player, of the shots and of the formation.

use vstd::prelude::*;
use crate::entities::{points, wave_view, Enemy, EnemyView, Heading, Input};
use crate::geometry::{Point, Position, PLAYER_HALF_WIDTH};
use crate::rules::{
    ENEMY_SHOT_SPEED, MARGIN, PLAYER_SHOT_SPEED, PLAYER_SPEED, SHOT_CEILING, SHOT_FLOOR,
    STEP_DOWN,
};

verus! {

/// The distance, in micro-pixels, covered at `speed` pixels per second in `dt` microseconds.
pub open spec fn stride(speed: nat, dt: nat) -> nat {
    speed * dt
}

/// Computes the distance covered at `speed` in `dt` microseconds.
pub fn stride_of(speed: u64, dt: u32) -> (s: i128)
    ensures
        s == stride(speed as nat, dt as nat),
        0 <= s <= 0xffff_ffff_ffff_ffff * 0xffff_ffff,
{
    assert(0 <= speed * dt <= 0xffff_ffff_ffff_ffff * 0xffff_ffff) by (nonlinear_arith)
        requires
            0 <= speed <= 0xffff_ffff_ffff_ffff,
            0 <= dt <= 0xffff_ffff,
    ;
    (speed as i128) * (dt as i128)
}

/// `v`, held between `lo` and `hi`.
pub open spec fn clamped(v: int, lo: int, hi: int) -> int {
    if v < lo {
        lo
    } else if v > hi {
        hi
    } else {
        v
    }
}

/// The direction signal times the distance: `travel` to the right for +1, to
/// the left for -1, nothing for 0.
pub open spec fn steered(axis: int, travel: nat) -> int {
    if axis > 0 {
        travel as int
    } else if axis < 0 {
        -(travel as int)
    } else {
        0
    }
}

/// The player after a frame. It moves along `axis` at the player's speed and
/// stops where its box touches a side of the viewport; its height stays.
pub open spec fn player_moved(p: Point, axis: int, dt: nat, half_width: int) -> Point {
    Point {
        x: clamped(
            p.x + steered(axis, stride(PLAYER_SPEED as nat, dt)),
            PLAYER_HALF_WIDTH - half_width,
            half_width - PLAYER_HALF_WIDTH,
        ),
        y: p.y,
    }
}

/// Moves the player for one frame.
pub fn move_player(p: Position, input: Input, dt: u32, half_width: i64) -> (q: Position)
    requires
        PLAYER_HALF_WIDTH <= half_width,
    ensures
        q@ == player_moved(p@, input.axis(), dt as nat, half_width as int),
{
    let travel: i128 = stride_of(PLAYER_SPEED, dt);
    let mut x: i128 = p.x as i128;
    if input.right {
        x = x + travel;
    }
    if input.left {
        x = x - travel;
    }
    let lo: i64 = PLAYER_HALF_WIDTH - half_width;
    let hi: i64 = half_width - PLAYER_HALF_WIDTH;
    let held: i64 = if x < lo as i128 {
        lo
    } else if x > hi as i128 {
        hi
    } else {
        x as i64
    };
    Position { x: held, y: p.y }
}

/// A player shot after `dt` microseconds.
pub open spec fn risen(p: Point, dt: nat) -> Point {
    Point { x: p.x, y: p.y + stride(PLAYER_SHOT_SPEED as nat, dt) }
}

/// A player shot at this height is still in the world.
pub open spec fn below_ceiling(p: Point) -> bool {
    p.y <= SHOT_CEILING
}

/// The player's shots after a frame: each has risen, and those that rose
/// above the ceiling are gone.
pub open spec fn player_shots_moved(shots: Seq<Point>, dt: nat) -> Seq<Point> {
    shots.map_values(|p: Point| risen(p, dt)).filter(|p: Point| below_ceiling(p))
}

/// How `player_shots_moved` treats one more shot at the end.
pub proof fn lemma_player_shots_moved_push(shots: Seq<Point>, p: Point, dt: nat)
    ensures
        player_shots_moved(shots.push(p), dt) == if below_ceiling(risen(p, dt)) {
            player_shots_moved(shots, dt).push(risen(p, dt))
        } else {
            player_shots_moved(shots, dt)
        },
{
    let lift = |p: Point| risen(p, dt);
    let keep = |p: Point| below_ceiling(p);
    let lifted = shots.push(p).map_values(lift);
    assert(lifted.drop_last() =~= shots.map_values(lift));
    assert(lifted.last() == risen(p, dt));
    reveal_with_fuel(Seq::filter, 2);
}

/// No shot is left above the ceiling, and no shot is counted twice.
pub proof fn lemma_player_shots_in_play(shots: Seq<Point>, dt: nat)
    ensures
        player_shots_moved(shots, dt).len() <= shots.len(),
        forall|i: int|
            0 <= i < player_shots_moved(shots, dt).len() ==> below_ceiling(
                #[trigger] player_shots_moved(shots, dt)[i],
            ),
{
    let lifted = shots.map_values(|p: Point| risen(p, dt));
    let keep = |p: Point| below_ceiling(p);
    lifted.lemma_filter_len(keep);
    assert forall|i: int| 0 <= i < lifted.filter(keep).len() implies below_ceiling(
        #[trigger] lifted.filter(keep)[i],
    ) by {
        lifted.lemma_filter_pred(keep, i);
    }
}

/// Moves the player's shots for one frame, and removes those that leave the world.
pub fn move_player_shots(shots: &mut Vec<Position>, dt: u32)
    ensures
        points(final(shots)@) == player_shots_moved(points(old(shots)@), dt as nat),
{
    let rise: i128 = stride_of(PLAYER_SHOT_SPEED, dt);
    let ghost all = points(shots@);
    let mut kept: Vec<Position> = Vec::new();
    let n = shots.len();
    let mut i: usize = 0;
    assert(points(kept@) =~= player_shots_moved(all.take(0), dt as nat)) by {
        reveal_with_fuel(Seq::filter, 1);
    }
    while i < n
        invariant
            i <= n,
            n == shots@.len(),
            all == points(shots@),
            rise == stride(PLAYER_SHOT_SPEED as nat, dt as nat),
            points(kept@) == player_shots_moved(all.take(i as int), dt as nat),
        decreases n - i,
    {
        let p = shots[i];
        let y: i128 = p.y as i128 + rise;
        proof {
            assert(all.take(i as int + 1) =~= all.take(i as int).push(p@));
            lemma_player_shots_moved_push(all.take(i as int), p@, dt as nat);
        }
        if y <= SHOT_CEILING as i128 {
            let ghost held = points(kept@);
            kept.push(Position { x: p.x, y: y as i64 });
            assert(points(kept@) =~= held.push(risen(p@, dt as nat)));
        }
        i += 1;
    }
    assert(all.take(n as int) =~= all);
    *shots = kept;
}

/// An enemy shot after `dt` microseconds.
pub open spec fn fallen(p: Point, dt: nat) -> Point {
    Point { x: p.x, y: p.y - stride(ENEMY_SHOT_SPEED as nat, dt) }
}

/// An enemy shot at this height is still in the world.
pub open spec fn above_floor(p: Point) -> bool {
    p.y >= SHOT_FLOOR
}

/// The enemy shots after a frame: each has fallen, and those that fell below
/// the floor are gone.
pub open spec fn enemy_shots_moved(shots: Seq<Point>, dt: nat) -> Seq<Point> {
    shots.map_values(|p: Point| fallen(p, dt)).filter(|p: Point| above_floor(p))
}

/// How `enemy_shots_moved` treats one more shot at the end.
pub proof fn lemma_enemy_shots_moved_push(shots: Seq<Point>, p: Point, dt: nat)
    ensures
        enemy_shots_moved(shots.push(p), dt) == if above_floor(fallen(p, dt)) {
            enemy_shots_moved(shots, dt).push(fallen(p, dt))
        } else {
            enemy_shots_moved(shots, dt)
        },
{
    let drop = |p: Point| fallen(p, dt);
    let lowered = shots.push(p).map_values(drop);
    assert(lowered.drop_last() =~= shots.map_values(drop));
    assert(lowered.last() == fallen(p, dt));
    reveal_with_fuel(Seq::filter, 2);
}

/// No shot is left below the floor, and no shot is counted twice.
pub proof fn lemma_enemy_shots_in_play(shots: Seq<Point>, dt: nat)
    ensures
        enemy_shots_moved(shots, dt).len() <= shots.len(),
        forall|i: int|
            0 <= i < enemy_shots_moved(shots, dt).len() ==> above_floor(
                #[trigger] enemy_shots_moved(shots, dt)[i],
            ),
{
    let dropped = shots.map_values(|p: Point| fallen(p, dt));
    let keep = |p: Point| above_floor(p);
    dropped.lemma_filter_len(keep);
    assert forall|i: int| 0 <= i < dropped.filter(keep).len() implies above_floor(
        #[trigger] dropped.filter(keep)[i],
    ) by {
        dropped.lemma_filter_pred(keep, i);
    }
}

/// Moves the enemy shots for one frame, and removes those that leave the world.
pub fn move_enemy_shots(shots: &mut Vec<Position>, dt: u32)
    ensures
        points(final(shots)@) == enemy_shots_moved(points(old(shots)@), dt as nat),
{
    let fall: i128 = stride_of(ENEMY_SHOT_SPEED, dt);
    let ghost all = points(shots@);
    let mut kept: Vec<Position> = Vec::new();
    let n = shots.len();
    let mut i: usize = 0;
    assert(points(kept@) =~= enemy_shots_moved(all.take(0), dt as nat)) by {
        reveal_with_fuel(Seq::filter, 1);
    }
    while i < n
        invariant
            i <= n,
            n == shots@.len(),
            all == points(shots@),
            fall == stride(ENEMY_SHOT_SPEED as nat, dt as nat),
            points(kept@) == enemy_shots_moved(all.take(i as int), dt as nat),
        decreases n - i,
    {
        let p = shots[i];
        let y: i128 = p.y as i128 - fall;
        proof {
            assert(all.take(i as int + 1) =~= all.take(i as int).push(p@));
            lemma_enemy_shots_moved_push(all.take(i as int), p@, dt as nat);
        }
        if y >= SHOT_FLOOR as i128 {
            let ghost held = points(kept@);
            kept.push(Position { x: p.x, y: y as i64 });
            assert(points(kept@) =~= held.push(fallen(p@, dt as nat)));
        }
        i += 1;
    }
    assert(all.take(n as int) =~= all);
    *shots = kept;
}

/// The horizontal displacement of the formation in a frame in which it covers `stride`.
pub open spec fn shift(heading: Heading, stride: nat) -> int {
    match heading {
        Heading::Left => -(stride as int),
        Heading::Right => stride as int,
    }
}

/// Moving on in its direction would take this enemy beyond a margin of the viewport.
pub open spec fn escapes(e: EnemyView, heading: Heading, stride: nat, half_width: int) -> bool {
    let x = e.at.x + shift(heading, stride);
    x > half_width - MARGIN || x < MARGIN - half_width
}

/// Some enemy of the wave would be taken beyond a margin.
pub open spec fn must_reverse(
    wave: Seq<EnemyView>,
    heading: Heading,
    stride: nat,
    half_width: int,
) -> bool {
    exists|i: int| 0 <= i < wave.len() && escapes(#[trigger] wave[i], heading, stride, half_width)
}

/// An enemy that has moved on with the formation.
pub open spec fn slid(e: EnemyView, heading: Heading, stride: nat) -> EnemyView {
    EnemyView { id: e.id, at: Point { x: e.at.x + shift(heading, stride), y: e.at.y } }
}

/// An enemy that has stepped down with the formation.
pub open spec fn lowered(e: EnemyView) -> EnemyView {
    EnemyView { id: e.id, at: Point { x: e.at.x, y: e.at.y - STEP_DOWN } }
}

/// The formation after a frame: its enemies and its direction.
pub struct Sweep {
    pub wave: Seq<EnemyView>,
    pub heading: Heading,
}

/// The formation after a frame. The test comes before the move: if moving on
/// would take any enemy beyond a margin, the whole formation turns round and
/// steps down once, and no enemy moves sideways; else every enemy moves on.
pub open spec fn formation_moved(
    wave: Seq<EnemyView>,
    heading: Heading,
    stride: nat,
    half_width: int,
) -> Sweep {
    if must_reverse(wave, heading, stride, half_width) {
        Sweep { wave: wave.map_values(|e: EnemyView| lowered(e)), heading: heading.reversed() }
    } else {
        Sweep { wave: wave.map_values(|e: EnemyView| slid(e, heading, stride)), heading }
    }
}

/// Where moving on would take an enemy that stands at `x`.
fn predicted_x(x: i64, heading: Heading, travel: i128) -> (next: i128)
    requires
        0 <= travel <= 0xffff_ffff_ffff_ffff * 0xffff_ffff,
    ensures
        next == x + shift(heading, travel as nat),
{
    match heading {
        Heading::Left => x as i128 - travel,
        Heading::Right => x as i128 + travel,
    }
}

/// Says whether the formation has to turn round in this frame.
pub fn formation_blocked(
    wave: &Vec<Enemy>,
    heading: Heading,
    speed: u64,
    dt: u32,
    half_width: i64,
) -> (blocked: bool)
    ensures
        blocked == must_reverse(
            wave_view(wave@),
            heading,
            stride(speed as nat, dt as nat),
            half_width as int,
        ),
{
    let travel: i128 = stride_of(speed, dt);
    let right_most: i128 = half_width as i128 - MARGIN as i128;
    let left_most: i128 = MARGIN as i128 - half_width as i128;
    let mut i: usize = 0;
    while i < wave.len()
        invariant
            i <= wave.len(),
            travel == stride(speed as nat, dt as nat),
            0 <= travel <= 0xffff_ffff_ffff_ffff * 0xffff_ffff,
            right_most == half_width - MARGIN,
            left_most == MARGIN - half_width,
            forall|k: int|
                0 <= k < i ==> !escapes(
                    #[trigger] wave_view(wave@)[k],
                    heading,
                    travel as nat,
                    half_width as int,
                ),
        decreases wave.len() - i,
    {
        let next: i128 = predicted_x(wave[i].pos.x, heading, travel);
        if next > right_most || next < left_most {
            assert(escapes(wave_view(wave@)[i as int], heading, travel as nat, half_width as int));
            return true;
        }
        i += 1;
    }
    false
}

/// Moves the formation for one frame.
pub fn move_formation(
    wave: &mut Vec<Enemy>,
    heading: &mut Heading,
    speed: u64,
    dt: u32,
    half_width: i64,
)
    requires
        forall|i: int|
            0 <= i < old(wave)@.len() ==> (#[trigger] wave_view(old(wave)@)[i]).at.y - STEP_DOWN
                >= i64::MIN,
    ensures
        (Sweep { wave: wave_view(final(wave)@), heading: *final(heading) }) == formation_moved(
            wave_view(old(wave)@),
            *old(heading),
            stride(speed as nat, dt as nat),
            half_width as int,
        ),
{
    let ghost before = wave_view(wave@);
    let along = *heading;
    let blocked = formation_blocked(wave, along, speed, dt, half_width);
    let travel: i128 = stride_of(speed, dt);
    let mut moved: Vec<Enemy> = Vec::new();
    let n = wave.len();
    let mut i: usize = 0;
    while i < n
        invariant
            i <= n,
            n == wave@.len(),
            before == wave_view(wave@),
            blocked == must_reverse(before, along, travel as nat, half_width as int),
            travel == stride(speed as nat, dt as nat),
            0 <= travel <= 0xffff_ffff_ffff_ffff * 0xffff_ffff,
            forall|k: int|
                0 <= k < wave@.len() ==> (#[trigger] before[k]).at.y - STEP_DOWN >= i64::MIN,
            moved@.len() == i,
            forall|k: int|
                0 <= k < i ==> (#[trigger] moved@[k])@ == if blocked {
                    lowered(before[k])
                } else {
                    slid(before[k], along, travel as nat)
                },
        decreases n - i,
    {
        let e = wave[i];
        assert(before[i as int] == e@);
        if blocked {
            moved.push(Enemy { id: e.id, pos: Position { x: e.pos.x, y: e.pos.y - STEP_DOWN } });
        } else {
            let next: i128 = predicted_x(e.pos.x, along, travel);
            assert(!escapes(before[i as int], along, travel as nat, half_width as int));
            moved.push(Enemy { id: e.id, pos: Position { x: next as i64, y: e.pos.y } });
        }
        i += 1;
    }
    if blocked {
        assert(wave_view(moved@) =~= before.map_values(|e: EnemyView| lowered(e)));
        *heading = along.reversed();
    } else {
        assert(wave_view(moved@) =~= before.map_values(
            |e: EnemyView| slid(e, along, travel as nat),
        ));
    }
    *wave = moved;
}

} // verus!
