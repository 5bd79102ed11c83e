//! Collisions between shots and their targets.
//!
//! Shots are taken in order. A shot hits the first target that it overlaps;
//! shot and target leave the world at once, so that no later shot of the same
//! pass can hit that target again.

use vstd::prelude::*;
use crate::entities::{point_of, points, wave_view, Enemy, EnemyView};
use crate::geometry::{boxes_overlap, overlaps, Kind, Point, Position};
use crate::rules::{KILL_SCORE, WIN_SCORE};
use crate::spawn::{home, spawn_player};

verus! {

/// A player shot overlaps an enemy.
pub open spec fn shot_hits_enemy(shot: Point, enemy: EnemyView) -> bool {
    boxes_overlap(shot, Kind::PlayerShot, enemy.at, Kind::Enemy)
}

/// `j` is the first enemy of the wave that the shot overlaps.
pub open spec fn is_first_hit(shot: Point, wave: Seq<EnemyView>, j: int) -> bool {
    &&& 0 <= j < wave.len()
    &&& shot_hits_enemy(shot, wave[j])
    &&& forall|i: int| 0 <= i < j ==> !shot_hits_enemy(shot, #[trigger] wave[i])
}

/// The first enemy of the wave that the shot overlaps, if it overlaps any.
pub open spec fn first_hit(shot: Point, wave: Seq<EnemyView>) -> Option<int> {
    if exists|j: int| is_first_hit(shot, wave, j) {
        Some(choose|j: int| is_first_hit(shot, wave, j))
    } else {
        None
    }
}

/// The first hit is unique: an index that is one is the one that `first_hit` names.
pub proof fn lemma_first_hit_unique(shot: Point, wave: Seq<EnemyView>, j: int)
    requires
        is_first_hit(shot, wave, j),
    ensures
        first_hit(shot, wave) == Some(j),
{
    let k = choose|k: int| is_first_hit(shot, wave, k);
    assert(is_first_hit(shot, wave, k));
    if k < j {
        assert(!shot_hits_enemy(shot, wave[k]));
    } else if j < k {
        assert(!shot_hits_enemy(shot, wave[j]));
    }
}

/// A shot that overlaps an enemy has a first hit, at that enemy or before it.
pub proof fn lemma_hit_has_first(shot: Point, wave: Seq<EnemyView>, m: int) -> (j: int)
    requires
        0 <= m < wave.len(),
        shot_hits_enemy(shot, wave[m]),
    ensures
        is_first_hit(shot, wave, j),
        j <= m,
    decreases m,
{
    if forall|i: int| 0 <= i < m ==> !shot_hits_enemy(shot, #[trigger] wave[i]) {
        m
    } else {
        let i = choose|i: int| 0 <= i < m && shot_hits_enemy(shot, #[trigger] wave[i]);
        lemma_hit_has_first(shot, wave, i)
    }
}

/// A shot that overlaps no enemy has no first hit.
pub proof fn lemma_first_hit_none(shot: Point, wave: Seq<EnemyView>)
    requires
        forall|i: int| 0 <= i < wave.len() ==> !shot_hits_enemy(shot, #[trigger] wave[i]),
    ensures
        first_hit(shot, wave) is None,
{
}

/// Finds the first enemy that a player shot overlaps.
pub fn find_first_hit(shot: Position, wave: &Vec<Enemy>) -> (found: Option<usize>)
    ensures
        match found {
            Some(j) => first_hit(shot@, wave_view(wave@)) == Some(j as int),
            None => first_hit(shot@, wave_view(wave@)) is None,
        },
{
    let mut i: usize = 0;
    while i < wave.len()
        invariant
            i <= wave.len(),
            forall|k: int| 0 <= k < i ==> !shot_hits_enemy(shot@, #[trigger] wave_view(wave@)[k]),
        decreases wave.len() - i,
    {
        if overlaps(shot, Kind::PlayerShot, wave[i].pos, Kind::Enemy) {
            proof {
                lemma_first_hit_unique(shot@, wave_view(wave@), i as int);
            }
            return Some(i);
        }
        i += 1;
    }
    proof {
        lemma_first_hit_none(shot@, wave_view(wave@));
    }
    None
}

/// What a volley of player shots leaves: the shots that hit nothing, and the
/// enemies that no shot hit.
pub struct Aftermath {
    pub shots: Seq<Point>,
    pub wave: Seq<EnemyView>,
}

/// The outcome of a volley. The first shot takes its first hit out of the wave
/// and is spent, or finds none and stays; the other shots meet what is left.
pub open spec fn volley_resolved(shots: Seq<Point>, wave: Seq<EnemyView>) -> Aftermath
    decreases shots.len(),
{
    if shots.len() == 0 {
        Aftermath { shots: Seq::empty(), wave }
    } else {
        match first_hit(shots.first(), wave) {
            Some(j) => volley_resolved(shots.drop_first(), wave.remove(j)),
            None => {
                let rest = volley_resolved(shots.drop_first(), wave);
                Aftermath { shots: seq![shots.first()] + rest.shots, wave: rest.wave }
            },
        }
    }
}

/// Resolves the player's shots against the wave and returns the number of
/// enemies hit. Spent shots leave `shots`, hit enemies leave `wave`; what
/// stays keeps its order.
pub fn resolve_player_shots(shots: &mut Vec<Position>, wave: &mut Vec<Enemy>) -> (kills: usize)
    ensures
        points(final(shots)@) == volley_resolved(points(old(shots)@), wave_view(old(wave)@)).shots,
        wave_view(final(wave)@) == volley_resolved(points(old(shots)@), wave_view(old(wave)@)).wave,
        kills + final(wave)@.len() == old(wave)@.len(),
{
    let ghost total = volley_resolved(points(shots@), wave_view(wave@));
    let ghost all = points(shots@);
    let before = wave.len();
    let mut kept: Vec<Position> = Vec::new();
    let mut kills: usize = 0;
    let n = shots.len();
    let mut i: usize = 0;
    assert(all.subrange(0, n as int) =~= all);
    assert(points(kept@) + total.shots =~= total.shots);
    while i < n
        invariant
            i <= n,
            n == shots@.len(),
            all == points(shots@),
            kills + wave@.len() == before,
            total.shots == points(kept@) + volley_resolved(
                all.subrange(i as int, n as int),
                wave_view(wave@),
            ).shots,
            total.wave == volley_resolved(all.subrange(i as int, n as int), wave_view(wave@)).wave,
        decreases n - i,
    {
        let shot = shots[i];
        let ghost pending = all.subrange(i as int, n as int);
        let ghost later = all.subrange(i as int + 1, n as int);
        let ghost targets = wave_view(wave@);
        assert(pending.first() == shot@);
        assert(pending.drop_first() =~= later);
        match find_first_hit(shot, wave) {
            Some(j) => {
                wave.remove(j);
                kills += 1;
                assert(wave_view(wave@) =~= targets.remove(j as int));
            },
            None => {
                let ghost held = points(kept@);
                kept.push(shot);
                let ghost rest = volley_resolved(later, targets);
                assert(points(kept@) =~= held.push(shot@));
                assert(points(kept@) + rest.shots =~= held + (seq![shot@] + rest.shots));
            },
        }
        i += 1;
    }
    assert(all.subrange(n as int, n as int) =~= Seq::<Point>::empty());
    assert(points(kept@) + Seq::<Point>::empty() =~= points(kept@));
    *shots = kept;
    kills
}

/// The score after `kills` more enemies.
pub open spec fn score_after(score: nat, kills: nat) -> nat {
    score + KILL_SCORE as nat * kills
}

/// One of `kills` enemies, counted one by one, brings the score to the winning score.
pub open spec fn reaches_win_score(score: nat, kills: nat) -> bool {
    exists|k: nat| 1 <= k <= kills && #[trigger] score_after(score, k) == WIN_SCORE
}

/// Adds the points for `kills` enemies to the score, and says whether the
/// score stood at the winning score after one of them.
pub fn award_kills(score: &mut u64, kills: usize) -> (won: bool)
    requires
        score_after(*old(score) as nat, kills as nat) <= u64::MAX,
    ensures
        *final(score) == score_after(*old(score) as nat, kills as nat),
        won == reaches_win_score(*old(score) as nat, kills as nat),
{
    let before: u64 = *score;
    let after: u64 = before + KILL_SCORE * (kills as u64);
    *score = after;
    let won = before < WIN_SCORE && after >= WIN_SCORE && (WIN_SCORE - before) % KILL_SCORE == 0;
    proof {
        if won {
            let k: nat = ((WIN_SCORE - before) as int / KILL_SCORE as int) as nat;
            assert(score_after(before as nat, k) == WIN_SCORE);
        }
    }
    won
}

/// An enemy shot overlaps the player.
pub open spec fn shot_hits_player(shot: Point, player: Point) -> bool {
    boxes_overlap(shot, Kind::EnemyShot, player, Kind::Player)
}

/// `j` is the first of the shots that overlaps the player.
pub open spec fn is_first_strike(shots: Seq<Point>, player: Point, j: int) -> bool {
    &&& 0 <= j < shots.len()
    &&& shot_hits_player(shots[j], player)
    &&& forall|i: int| 0 <= i < j ==> !shot_hits_player(#[trigger] shots[i], player)
}

/// The first of the shots that overlaps the player, if any does.
pub open spec fn first_strike(shots: Seq<Point>, player: Point) -> Option<int> {
    if exists|j: int| is_first_strike(shots, player, j) {
        Some(choose|j: int| is_first_strike(shots, player, j))
    } else {
        None
    }
}

/// The first strike is unique: an index that is one is the one that `first_strike` names.
pub proof fn lemma_first_strike_unique(shots: Seq<Point>, player: Point, j: int)
    requires
        is_first_strike(shots, player, j),
    ensures
        first_strike(shots, player) == Some(j),
{
    let k = choose|k: int| is_first_strike(shots, player, k);
    assert(is_first_strike(shots, player, k));
    if k < j {
        assert(!shot_hits_player(shots[k], player));
    } else if j < k {
        assert(!shot_hits_player(shots[j], player));
    }
}

/// Finds the first enemy shot that overlaps the player.
pub fn find_first_strike(shots: &Vec<Position>, player: Position) -> (found: Option<usize>)
    ensures
        match found {
            Some(j) => first_strike(points(shots@), player@) == Some(j as int),
            None => first_strike(points(shots@), player@) is None,
        },
{
    let mut i: usize = 0;
    while i < shots.len()
        invariant
            i <= shots.len(),
            forall|k: int| 0 <= k < i ==> !shot_hits_player(#[trigger] points(shots@)[k], player@),
        decreases shots.len() - i,
    {
        if overlaps(shots[i], Kind::EnemyShot, player, Kind::Player) {
            proof {
                lemma_first_strike_unique(points(shots@), player@, i as int);
            }
            return Some(i);
        }
        i += 1;
    }
    None
}

/// What a pass of the enemy shots leaves.
pub struct Strike {
    pub shots: Seq<Point>,
    pub player: Option<Point>,
    pub lives: nat,
    /// The player was hit with no life to spare.
    pub lost: bool,
}

/// The outcome of a pass of the enemy shots. Without a player, or without a
/// shot that overlaps it, nothing changes. Else the first such shot and the
/// player leave the world and a life is taken: with lives to spare the player
/// reappears at home, without the game is lost.
pub open spec fn player_struck(shots: Seq<Point>, player: Option<Point>, lives: nat) -> Strike {
    match player {
        Some(p) => match first_strike(shots, p) {
            Some(j) => if lives > 1 {
                Strike { shots: shots.remove(j), player: Some(home()), lives: (lives - 1) as nat, lost: false }
            } else {
                Strike { shots: shots.remove(j), player: None, lives: 0, lost: true }
            },
            None => Strike { shots, player, lives, lost: false },
        },
        None => Strike { shots, player, lives, lost: false },
    }
}

/// Resolves the enemy shots against the player, and says whether the game is lost by it.
pub fn resolve_enemy_shots(
    shots: &mut Vec<Position>,
    player: &mut Option<Position>,
    lives: &mut u32,
) -> (lost: bool)
    ensures
        (Strike {
            shots: points(final(shots)@),
            player: point_of(*final(player)),
            lives: *final(lives) as nat,
            lost,
        }) == player_struck(points(old(shots)@), point_of(*old(player)), *old(lives) as nat),
{
    let target = match *player {
        Some(p) => p,
        None => {
            return false;
        },
    };
    match find_first_strike(shots, target) {
        Some(j) => {
            let ghost flying = points(shots@);
            shots.remove(j);
            assert(points(shots@) =~= flying.remove(j as int));
            if *lives > 1 {
                *lives = *lives - 1;
                *player = Some(spawn_player());
                false
            } else {
                *lives = 0;
                *player = None;
                true
            }
        },
        None => false,
    }
}

} // verus!
