use space_invaders::entities::{Enemy, Heading, Input};
use space_invaders::geometry::{Position, UNIT};
use space_invaders::movement::{
    formation_blocked, move_enemy_shots, move_formation, move_player, move_player_shots, stride_of,
};

const HALF_WIDTH: i64 = 640 * UNIT;

fn at(x: i64, y: i64) -> Position {
    Position { x, y }
}

fn keys(left: bool, right: bool) -> Input {
    Input { left, right, fire: false, restart: false, advance: false }
}

fn enemy(id: u32, x: i64, y: i64) -> Enemy {
    Enemy { id, pos: at(x, y) }
}

#[test]
fn stride_is_speed_times_time() {
    assert_eq!(stride_of(300, 16_000), 4_800_000);
    assert_eq!(stride_of(0, 16_000), 0);
    assert_eq!(stride_of(100, 0), 0);
    assert_eq!(stride_of(u64::MAX, u32::MAX), (u64::MAX as i128) * (u32::MAX as i128));
}

#[test]
fn player_moves_right_at_its_speed() {
    let p = move_player(at(0, -200 * UNIT), keys(false, true), 16_000, HALF_WIDTH);
    assert_eq!(p, at(4_800_000, -200 * UNIT));
}

#[test]
fn player_moves_left_at_its_speed() {
    let p = move_player(at(10 * UNIT, -200 * UNIT), keys(true, false), 1_000_000, HALF_WIDTH);
    assert_eq!(p, at(-290 * UNIT, -200 * UNIT));
}

#[test]
fn player_stays_without_a_key_and_with_both() {
    let start = at(33 * UNIT, -200 * UNIT);
    assert_eq!(move_player(start, keys(false, false), 16_000, HALF_WIDTH), start);
    assert_eq!(move_player(start, keys(true, true), 16_000, HALF_WIDTH), start);
}

#[test]
fn player_is_held_at_the_right_side() {
    let p = move_player(at(614 * UNIT, -200 * UNIT), keys(false, true), 16_000, HALF_WIDTH);
    assert_eq!(p, at(615 * UNIT, -200 * UNIT));
    let q = move_player(p, keys(false, true), u32::MAX, HALF_WIDTH);
    assert_eq!(q, at(615 * UNIT, -200 * UNIT));
}

#[test]
fn player_is_held_at_the_left_side() {
    let p = move_player(at(-614 * UNIT, -200 * UNIT), keys(true, false), 16_000, HALF_WIDTH);
    assert_eq!(p, at(-615 * UNIT, -200 * UNIT));
}

#[test]
fn player_outside_the_viewport_is_brought_back() {
    let p = move_player(at(i64::MAX, 5), keys(false, true), u32::MAX, HALF_WIDTH);
    assert_eq!(p, at(615 * UNIT, 5));
    let q = move_player(at(i64::MIN, 5), keys(true, false), u32::MAX, HALF_WIDTH);
    assert_eq!(q, at(-615 * UNIT, 5));
}

#[test]
fn player_in_the_narrowest_viewport_cannot_move() {
    let p = move_player(at(0, 0), keys(false, true), 16_000, 25 * UNIT);
    assert_eq!(p, at(0, 0));
}

#[test]
fn player_shots_rise() {
    let mut shots = vec![at(0, -180 * UNIT), at(5 * UNIT, 0)];
    move_player_shots(&mut shots, 16_000);
    assert_eq!(shots, vec![at(0, -172 * UNIT), at(5 * UNIT, 8 * UNIT)]);
}

#[test]
fn player_shot_above_the_ceiling_leaves() {
    let mut shots = vec![at(1, 299 * UNIT), at(2, 0), at(3, 295 * UNIT), at(4, 292 * UNIT)];
    move_player_shots(&mut shots, 16_000);
    // 8 pixels up: the first and the third pass 300, the last arrives at 300 and stays.
    assert_eq!(shots, vec![at(2, 8 * UNIT), at(4, 300 * UNIT)]);
}

#[test]
fn player_shot_already_above_the_ceiling_leaves_in_the_next_frame() {
    let mut shots = vec![at(0, 450 * UNIT), at(0, i64::MAX)];
    move_player_shots(&mut shots, 0);
    assert_eq!(shots, vec![]);
}

#[test]
fn player_shots_without_time_stay() {
    let mut shots = vec![at(0, 300 * UNIT), at(0, -180 * UNIT)];
    move_player_shots(&mut shots, 0);
    assert_eq!(shots, vec![at(0, 300 * UNIT), at(0, -180 * UNIT)]);
}

#[test]
fn enemy_shots_fall() {
    let mut shots = vec![at(0, 80 * UNIT), at(5 * UNIT, 0)];
    move_enemy_shots(&mut shots, 16_000);
    assert_eq!(shots, vec![at(0, 76 * UNIT), at(5 * UNIT, -4 * UNIT)]);
}

#[test]
fn enemy_shot_below_the_floor_leaves() {
    let mut shots = vec![at(1, -319 * UNIT), at(2, 0), at(3, -316 * UNIT), at(4, i64::MIN)];
    move_enemy_shots(&mut shots, 16_000);
    // 4 pixels down: the first passes -320, the third arrives at -320 and stays.
    assert_eq!(shots, vec![at(2, -4 * UNIT), at(3, -320 * UNIT)]);
}

#[test]
fn no_shots_no_movement() {
    let mut shots: Vec<Position> = Vec::new();
    move_player_shots(&mut shots, 16_000);
    assert!(shots.is_empty());
    move_enemy_shots(&mut shots, 16_000);
    assert!(shots.is_empty());
}

#[test]
fn formation_slides_right() {
    let mut wave = vec![enemy(0, -210 * UNIT, 100 * UNIT), enemy(1, 210 * UNIT, 140 * UNIT)];
    let mut heading = Heading::Right;
    move_formation(&mut wave, &mut heading, 100, 16_000, HALF_WIDTH);
    assert_eq!(heading, Heading::Right);
    assert_eq!(
        wave,
        vec![enemy(0, -208_400_000, 100 * UNIT), enemy(1, 211_600_000, 140 * UNIT)]
    );
}

#[test]
fn formation_slides_left() {
    let mut wave = vec![enemy(3, 0, 100 * UNIT)];
    let mut heading = Heading::Left;
    move_formation(&mut wave, &mut heading, 150, 1_000_000, HALF_WIDTH);
    assert_eq!(heading, Heading::Left);
    assert_eq!(wave, vec![enemy(3, -150 * UNIT, 100 * UNIT)]);
}

#[test]
fn formation_reversal() {
    // One enemy stands 1 pixel short of the right margin; the formation would cover 1.6 pixels.
    let mut wave = vec![
        enemy(0, 199 * UNIT, 100 * UNIT),
        enemy(1, 619 * UNIT, 100 * UNIT),
        enemy(2, -300 * UNIT, 140 * UNIT),
    ];
    let mut heading = Heading::Right;
    assert!(formation_blocked(&wave, heading, 100, 16_000, HALF_WIDTH));
    move_formation(&mut wave, &mut heading, 100, 16_000, HALF_WIDTH);
    assert_eq!(heading, Heading::Left);
    assert_eq!(
        wave,
        vec![
            enemy(0, 199 * UNIT, 80 * UNIT),
            enemy(1, 619 * UNIT, 80 * UNIT),
            enemy(2, -300 * UNIT, 120 * UNIT),
        ]
    );
    // In the next frame the formation goes left, and does not step down again.
    move_formation(&mut wave, &mut heading, 100, 16_000, HALF_WIDTH);
    assert_eq!(heading, Heading::Left);
    assert_eq!(
        wave,
        vec![
            enemy(0, 197_400_000, 80 * UNIT),
            enemy(1, 617_400_000, 80 * UNIT),
            enemy(2, -301_600_000, 120 * UNIT),
        ]
    );
}

#[test]
fn formation_reversal_at_the_left_margin() {
    let mut wave = vec![enemy(0, -619 * UNIT, 100 * UNIT), enemy(1, 0, 100 * UNIT)];
    let mut heading = Heading::Left;
    move_formation(&mut wave, &mut heading, 100, 16_000, HALF_WIDTH);
    assert_eq!(heading, Heading::Right);
    assert_eq!(wave, vec![enemy(0, -619 * UNIT, 80 * UNIT), enemy(1, 0, 80 * UNIT)]);
}

#[test]
fn formation_may_arrive_at_the_margin() {
    // Exactly as far from the margin as the formation covers: it arrives and does not turn.
    let mut wave = vec![enemy(0, 620 * UNIT - 1_600_000, 100 * UNIT)];
    let mut heading = Heading::Right;
    assert!(!formation_blocked(&wave, heading, 100, 16_000, HALF_WIDTH));
    move_formation(&mut wave, &mut heading, 100, 16_000, HALF_WIDTH);
    assert_eq!(heading, Heading::Right);
    assert_eq!(wave, vec![enemy(0, 620 * UNIT, 100 * UNIT)]);
    // One micro-pixel more would take it out: it turns.
    move_formation(&mut wave, &mut heading, 1, 1, HALF_WIDTH);
    assert_eq!(heading, Heading::Left);
    assert_eq!(wave, vec![enemy(0, 620 * UNIT, 80 * UNIT)]);
}

#[test]
fn formation_without_time_stays() {
    let mut wave = vec![enemy(0, 620 * UNIT, 100 * UNIT)];
    let mut heading = Heading::Right;
    move_formation(&mut wave, &mut heading, 100, 0, HALF_WIDTH);
    assert_eq!(heading, Heading::Right);
    assert_eq!(wave, vec![enemy(0, 620 * UNIT, 100 * UNIT)]);
}

#[test]
fn empty_formation_keeps_its_heading() {
    let mut wave: Vec<Enemy> = Vec::new();
    let mut heading = Heading::Left;
    assert!(!formation_blocked(&wave, heading, 100, u32::MAX, HALF_WIDTH));
    move_formation(&mut wave, &mut heading, 100, u32::MAX, HALF_WIDTH);
    assert_eq!(heading, Heading::Left);
    assert!(wave.is_empty());
}

#[test]
fn formation_with_a_huge_stride_turns_without_overflow() {
    let mut wave = vec![enemy(0, 0, 100 * UNIT)];
    let mut heading = Heading::Right;
    move_formation(&mut wave, &mut heading, u64::MAX, u32::MAX, HALF_WIDTH);
    assert_eq!(heading, Heading::Left);
    assert_eq!(wave, vec![enemy(0, 0, 80 * UNIT)]);
}

#[test]
fn heading_reverses() {
    assert_eq!(Heading::Left.reversed(), Heading::Right);
    assert_eq!(Heading::Right.reversed(), Heading::Left);
}
