use space_invaders::collision::{
    award_kills, find_first_hit, find_first_strike, resolve_enemy_shots, resolve_player_shots,
};
use space_invaders::entities::Enemy;
use space_invaders::geometry::{Position, UNIT};

fn at(x: i64, y: i64) -> Position {
    Position { x, y }
}

fn enemy(id: u32, x: i64, y: i64) -> Enemy {
    Enemy { id, pos: at(x, y) }
}

#[test]
fn first_hit_is_the_first_enemy_overlapped() {
    // Two enemies whose boxes both hold the shot: the one that comes first is hit.
    let wave = vec![
        enemy(0, -100 * UNIT, 100 * UNIT),
        enemy(1, 10 * UNIT, 100 * UNIT),
        enemy(2, -10 * UNIT, 100 * UNIT),
    ];
    assert_eq!(find_first_hit(at(0, 100 * UNIT), &wave), Some(1));
    assert_eq!(find_first_hit(at(-100 * UNIT, 95 * UNIT), &wave), Some(0));
    assert_eq!(find_first_hit(at(0, 0), &wave), None);
    assert_eq!(find_first_hit(at(0, 0), &Vec::new()), None);
}

#[test]
fn collision_resolution() {
    // One shot, one enemy under it, and two others that it does not touch.
    let mut shots = vec![at(0, 95 * UNIT)];
    let mut wave = vec![
        enemy(0, -60 * UNIT, 100 * UNIT),
        enemy(1, 0, 100 * UNIT),
        enemy(2, 60 * UNIT, 100 * UNIT),
    ];
    let mut score: u64 = 700;
    let kills = resolve_player_shots(&mut shots, &mut wave);
    let won = award_kills(&mut score, kills);
    assert_eq!(kills, 1);
    assert!(shots.is_empty());
    assert_eq!(wave, vec![enemy(0, -60 * UNIT, 100 * UNIT), enemy(2, 60 * UNIT, 100 * UNIT)]);
    assert_eq!(score, 800);
    assert!(!won);
}

#[test]
fn shot_that_misses_stays() {
    let mut shots = vec![at(0, -100 * UNIT), at(30 * UNIT, 100 * UNIT)];
    let mut wave = vec![enemy(0, -60 * UNIT, 100 * UNIT), enemy(1, 0, 100 * UNIT)];
    let kills = resolve_player_shots(&mut shots, &mut wave);
    assert_eq!(kills, 0);
    assert_eq!(shots, vec![at(0, -100 * UNIT), at(30 * UNIT, 100 * UNIT)]);
    assert_eq!(wave, vec![enemy(0, -60 * UNIT, 100 * UNIT), enemy(1, 0, 100 * UNIT)]);
}

#[test]
fn shot_hits_one_enemy_only() {
    // The boxes of both enemies hold the shot; only the first is taken.
    let mut shots = vec![at(0, 100 * UNIT)];
    let mut wave = vec![enemy(4, 15 * UNIT, 100 * UNIT), enemy(5, -15 * UNIT, 100 * UNIT)];
    let kills = resolve_player_shots(&mut shots, &mut wave);
    assert_eq!(kills, 1);
    assert!(shots.is_empty());
    assert_eq!(wave, vec![enemy(5, -15 * UNIT, 100 * UNIT)]);
}

#[test]
fn enemy_is_hit_once_only() {
    // Two shots on one enemy: the first takes it, the second finds nothing and stays.
    let mut shots = vec![at(0, 95 * UNIT), at(1 * UNIT, 96 * UNIT)];
    let mut wave = vec![enemy(0, 0, 100 * UNIT), enemy(1, 60 * UNIT, 100 * UNIT)];
    let kills = resolve_player_shots(&mut shots, &mut wave);
    assert_eq!(kills, 1);
    assert_eq!(shots, vec![at(1 * UNIT, 96 * UNIT)]);
    assert_eq!(wave, vec![enemy(1, 60 * UNIT, 100 * UNIT)]);
}

#[test]
fn later_shot_hits_what_the_earlier_left() {
    // Both shots overlap both enemies: the first takes the first, the second the second.
    let mut shots = vec![at(0, 100 * UNIT), at(0, 101 * UNIT), at(0, 102 * UNIT)];
    let mut wave = vec![enemy(0, 10 * UNIT, 100 * UNIT), enemy(1, -10 * UNIT, 100 * UNIT)];
    let kills = resolve_player_shots(&mut shots, &mut wave);
    assert_eq!(kills, 2);
    assert_eq!(shots, vec![at(0, 102 * UNIT)]);
    assert!(wave.is_empty());
}

#[test]
fn volley_keeps_the_order_of_what_stays() {
    let mut shots = vec![
        at(-200 * UNIT, 0),
        at(0, 100 * UNIT),
        at(200 * UNIT, 0),
        at(120 * UNIT, 100 * UNIT),
        at(300 * UNIT, 0),
    ];
    let mut wave = vec![
        enemy(0, -60 * UNIT, 100 * UNIT),
        enemy(1, 0, 100 * UNIT),
        enemy(2, 60 * UNIT, 100 * UNIT),
        enemy(3, 120 * UNIT, 100 * UNIT),
        enemy(4, 180 * UNIT, 100 * UNIT),
    ];
    let kills = resolve_player_shots(&mut shots, &mut wave);
    assert_eq!(kills, 2);
    assert_eq!(shots, vec![at(-200 * UNIT, 0), at(200 * UNIT, 0), at(300 * UNIT, 0)]);
    assert_eq!(
        wave,
        vec![
            enemy(0, -60 * UNIT, 100 * UNIT),
            enemy(2, 60 * UNIT, 100 * UNIT),
            enemy(4, 180 * UNIT, 100 * UNIT),
        ]
    );
}

#[test]
fn empty_volley_changes_nothing() {
    let mut shots: Vec<Position> = Vec::new();
    let mut wave = vec![enemy(0, 0, 100 * UNIT)];
    assert_eq!(resolve_player_shots(&mut shots, &mut wave), 0);
    assert!(shots.is_empty());
    assert_eq!(wave, vec![enemy(0, 0, 100 * UNIT)]);
    let mut shots = vec![at(0, 0)];
    let mut wave: Vec<Enemy> = Vec::new();
    assert_eq!(resolve_player_shots(&mut shots, &mut wave), 0);
    assert_eq!(shots, vec![at(0, 0)]);
}

#[test]
fn each_kill_is_worth_a_hundred() {
    let mut score: u64 = 0;
    assert!(!award_kills(&mut score, 0));
    assert_eq!(score, 0);
    assert!(!award_kills(&mut score, 1));
    assert_eq!(score, 100);
    assert!(!award_kills(&mut score, 3));
    assert_eq!(score, 400);
}

#[test]
fn score_of_four_thousand_wins() {
    let mut score: u64 = 3_900;
    assert!(award_kills(&mut score, 1));
    assert_eq!(score, 4_000);
    // The score stood at 4000 after the second of these three kills.
    let mut score: u64 = 3_800;
    assert!(award_kills(&mut score, 3));
    assert_eq!(score, 4_100);
    // At 4000 already: no kill brings it there.
    let mut score: u64 = 4_000;
    assert!(!award_kills(&mut score, 1));
    assert_eq!(score, 4_100);
    assert!(!award_kills(&mut score, 0));
    // A score that is no multiple of a hundred steps over 4000.
    let mut score: u64 = 3_950;
    assert!(!award_kills(&mut score, 1));
    assert_eq!(score, 4_050);
}

#[test]
fn first_strike_is_the_first_shot_on_the_player() {
    let player = at(0, -200 * UNIT);
    let shots = vec![at(100 * UNIT, -200 * UNIT), at(20 * UNIT, -190 * UNIT), at(0, -200 * UNIT)];
    assert_eq!(find_first_strike(&shots, player), Some(1));
    assert_eq!(find_first_strike(&shots, at(-300 * UNIT, -200 * UNIT)), None);
    assert_eq!(find_first_strike(&Vec::new(), player), None);
}

#[test]
fn hit_with_lives_to_spare_brings_the_player_home() {
    let mut shots = vec![at(-300 * UNIT, 0), at(52 * UNIT, -195 * UNIT), at(50 * UNIT, -200 * UNIT)];
    let mut player = Some(at(50 * UNIT, -200 * UNIT));
    let mut lives: u32 = 3;
    let lost = resolve_enemy_shots(&mut shots, &mut player, &mut lives);
    assert!(!lost);
    assert_eq!(lives, 2);
    assert_eq!(player, Some(at(0, -200 * UNIT)));
    // Only the first shot on the player is spent.
    assert_eq!(shots, vec![at(-300 * UNIT, 0), at(50 * UNIT, -200 * UNIT)]);
}

#[test]
fn hit_on_the_last_life_loses_the_game() {
    let mut shots = vec![at(0, -200 * UNIT)];
    let mut player = Some(at(0, -200 * UNIT));
    let mut lives: u32 = 1;
    let lost = resolve_enemy_shots(&mut shots, &mut player, &mut lives);
    assert!(lost);
    assert_eq!(lives, 0);
    assert_eq!(player, None);
    assert!(shots.is_empty());
}

#[test]
fn lives_do_not_go_below_zero() {
    let mut shots = vec![at(0, -200 * UNIT)];
    let mut player = Some(at(0, -200 * UNIT));
    let mut lives: u32 = 0;
    let lost = resolve_enemy_shots(&mut shots, &mut player, &mut lives);
    assert!(lost);
    assert_eq!(lives, 0);
    assert_eq!(player, None);
}

#[test]
fn miss_costs_nothing() {
    let mut shots = vec![at(0, 0), at(28 * UNIT, -200 * UNIT)];
    let mut player = Some(at(0, -200 * UNIT));
    let mut lives: u32 = 2;
    let lost = resolve_enemy_shots(&mut shots, &mut player, &mut lives);
    assert!(!lost);
    assert_eq!(lives, 2);
    assert_eq!(player, Some(at(0, -200 * UNIT)));
    assert_eq!(shots, vec![at(0, 0), at(28 * UNIT, -200 * UNIT)]);
}

#[test]
fn no_player_no_hit() {
    let mut shots = vec![at(0, -200 * UNIT)];
    let mut player: Option<Position> = None;
    let mut lives: u32 = 2;
    let lost = resolve_enemy_shots(&mut shots, &mut player, &mut lives);
    assert!(!lost);
    assert_eq!(lives, 2);
    assert_eq!(player, None);
    assert_eq!(shots, vec![at(0, -200 * UNIT)]);
}
