//! What holds of the game as a whole, stated over the world as a mathematical
//! value and proved from the definitions of the systems.

use vstd::prelude::*;
use crate::collision::{
    first_hit, first_strike, is_first_hit, lemma_first_hit_unique, lemma_hit_has_first,
    shot_hits_enemy, volley_resolved, Aftermath,
};
use crate::entities::{EnemyView, Heading, Input, TerminalState};
use crate::geometry::Point;
use crate::model::{after_frames, fresh_world, inside_margins, Tick, WorldView};
use crate::movement::{
    above_floor, below_ceiling, enemy_shots_moved, escapes, fallen, formation_moved,
    lemma_enemy_shots_in_play, lemma_player_shots_in_play, must_reverse, player_shots_moved,
    risen, stride,
};
use crate::rules::{
    BASE_ENEMY_SPEED, ENEMY_SPEED_STEP, KILL_SCORE, MARGIN, MIN_HALF_WIDTH, START_LIVES,
    STEP_DOWN,
};
use crate::soundness::{
    lemma_frame_keeps_account, lemma_frame_wf, lemma_fresh_wave, lemma_volley_leaves,
};
use crate::spawn::{fresh_wave, home};

verus! {

/// A game starts in a well-formed world, if the viewport is wide enough.
pub proof fn law_fresh_world_is_well_formed(half_width: int)
    requires
        MIN_HALF_WIDTH <= half_width,
    ensures
        fresh_world(half_width).wf(),
{
    lemma_fresh_wave(half_width);
}

/// The formation never leaves the margins: if every enemy is inside them
/// before the movement, every enemy is inside them after it, whatever the
/// speed and the time.
pub proof fn law_formation_stays_inside(
    wave: Seq<EnemyView>,
    heading: Heading,
    stride: nat,
    half_width: int,
)
    requires
        forall|i: int| 0 <= i < wave.len() ==> inside_margins(#[trigger] wave[i], half_width),
    ensures
        forall|i: int|
            0 <= i < formation_moved(wave, heading, stride, half_width).wave.len()
                ==> inside_margins(
                #[trigger] formation_moved(wave, heading, stride, half_width).wave[i],
                half_width,
            ),
{
    let after = formation_moved(wave, heading, stride, half_width).wave;
    assert forall|i: int| 0 <= i < after.len() implies inside_margins(
        #[trigger] after[i],
        half_width,
    ) by {
        assert(inside_margins(wave[i], half_width));
        if !must_reverse(wave, heading, stride, half_width) {
            assert(!escapes(wave[i], heading, stride, half_width));
        }
    }
}

/// A frame keeps a well-formed world well-formed; so after every frame every
/// live enemy is between the margins of the viewport.
pub proof fn law_frame_keeps_enemies_inside(
    w: WorldView,
    dt: nat,
    input: Input,
    pick: Option<int>,
)
    requires
        w.wf(),
    ensures
        w.frame(dt, input, pick).wf(),
        forall|i: int|
            0 <= i < w.frame(dt, input, pick).wave.len() ==> MARGIN - w.half_width <= (
            #[trigger] w.frame(dt, input, pick).wave[i]).at.x <= w.half_width - MARGIN,
{
    lemma_frame_wf(w, dt, input, pick);
    let after = w.frame(dt, input, pick);
    assert(after.half_width == w.half_width);
    assert forall|i: int| 0 <= i < after.wave.len() implies MARGIN - w.half_width <= (
    #[trigger] after.wave[i]).at.x <= w.half_width - MARGIN by {
        assert(inside_margins(after.wave[i], after.half_width));
    }
}

/// Whatever happens in a game, its world is well-formed after every frame,
/// and its viewport is the one it started in.
pub proof fn law_every_world_of_a_game_is_well_formed(half_width: int, ticks: Seq<Tick>)
    requires
        MIN_HALF_WIDTH <= half_width,
    ensures
        after_frames(fresh_world(half_width), ticks).wf(),
        after_frames(fresh_world(half_width), ticks).half_width == half_width,
    decreases ticks.len(),
{
    if ticks.len() == 0 {
        law_fresh_world_is_well_formed(half_width);
    } else {
        let last = ticks.last();
        law_every_world_of_a_game_is_well_formed(half_width, ticks.drop_last());
        lemma_frame_wf(
            after_frames(fresh_world(half_width), ticks.drop_last()),
            last.dt,
            last.input,
            last.pick,
        );
    }
}

/// The boundary of the formation: after every frame of every game, every
/// live enemy is between the margins of the viewport.
pub proof fn law_enemies_never_leave_the_margins(half_width: int, ticks: Seq<Tick>)
    requires
        MIN_HALF_WIDTH <= half_width,
    ensures
        forall|i: int|
            0 <= i < after_frames(fresh_world(half_width), ticks).wave.len() ==> MARGIN
                - half_width <= (#[trigger] after_frames(
                fresh_world(half_width),
                ticks,
            ).wave[i]).at.x <= half_width - MARGIN,
{
    law_every_world_of_a_game_is_well_formed(half_width, ticks);
    let w = after_frames(fresh_world(half_width), ticks);
    assert forall|i: int| 0 <= i < w.wave.len() implies MARGIN - half_width <= (
    #[trigger] w.wave[i]).at.x <= half_width - MARGIN by {
        assert(inside_margins(w.wave[i], w.half_width));
    }
}

/// The two winning rules agree in every game. The score counts the enemies
/// shot, so it stands at the winning score just when the first wave is
/// cleared: a game is never won while an enemy is left, and the key for the
/// next level is never refused to a game that is won.
pub proof fn law_winning_rules_agree(half_width: int, ticks: Seq<Tick>)
    requires
        MIN_HALF_WIDTH <= half_width,
    ensures
        after_frames(fresh_world(half_width), ticks).accounted(),
        after_frames(fresh_world(half_width), ticks).state == TerminalState::Won <==> after_frames(
            fresh_world(half_width),
            ticks,
        ).wave.len() == 0 && after_frames(fresh_world(half_width), ticks).state
            != TerminalState::Lost,
    decreases ticks.len(),
{
    law_every_world_of_a_game_is_well_formed(half_width, ticks);
    if ticks.len() == 0 {
        lemma_fresh_wave(half_width);
    } else {
        let last = ticks.last();
        let before = after_frames(fresh_world(half_width), ticks.drop_last());
        law_every_world_of_a_game_is_well_formed(half_width, ticks.drop_last());
        law_winning_rules_agree(half_width, ticks.drop_last());
        lemma_frame_keeps_account(before, last.dt, last.input, last.pick);
    }
}

/// A shot that the movement takes beyond its threshold is gone after that
/// movement, and a shot that it does not is still there: of the player's
/// shots exactly those at or below the ceiling stay, of the enemy shots
/// exactly those at or above the floor, none twice.
pub proof fn law_shots_beyond_threshold_leave(w: WorldView, input: Input, dt: nat)
    requires
        w.playing(),
    ensures
        w.moved(input, dt).player_shots.len() <= w.player_shots.len(),
        w.moved(input, dt).enemy_shots.len() <= w.enemy_shots.len(),
        forall|i: int|
            0 <= i < w.moved(input, dt).player_shots.len() ==> below_ceiling(
                #[trigger] w.moved(input, dt).player_shots[i],
            ),
        forall|i: int|
            0 <= i < w.moved(input, dt).enemy_shots.len() ==> above_floor(
                #[trigger] w.moved(input, dt).enemy_shots[i],
            ),
        forall|i: int|
            0 <= i < w.player_shots.len() ==> below_ceiling(risen(#[trigger] w.player_shots[i], dt))
                == w.moved(input, dt).player_shots.contains(risen(w.player_shots[i], dt)),
        forall|i: int|
            0 <= i < w.enemy_shots.len() ==> above_floor(fallen(#[trigger] w.enemy_shots[i], dt))
                == w.moved(input, dt).enemy_shots.contains(fallen(w.enemy_shots[i], dt)),
{
    lemma_player_shots_in_play(w.player_shots, dt);
    lemma_enemy_shots_in_play(w.enemy_shots, dt);
    let up = w.moved(input, dt).player_shots;
    let down = w.moved(input, dt).enemy_shots;
    assert(up == player_shots_moved(w.player_shots, dt));
    assert(down == enemy_shots_moved(w.enemy_shots, dt));
    let lifted = w.player_shots.map_values(|p: Point| risen(p, dt));
    let dropped = w.enemy_shots.map_values(|p: Point| fallen(p, dt));
    assert forall|i: int| 0 <= i < w.player_shots.len() implies below_ceiling(
        risen(#[trigger] w.player_shots[i], dt),
    ) == up.contains(risen(w.player_shots[i], dt)) by {
        let q = risen(w.player_shots[i], dt);
        assert(lifted[i] == q);
        if below_ceiling(q) {
            lifted.lemma_filter_contains(|p: Point| below_ceiling(p), i);
        }
        if up.contains(q) {
            let k = choose|k: int| 0 <= k < up.len() && up[k] == q;
            assert(below_ceiling(up[k]));
        }
    }
    assert forall|i: int| 0 <= i < w.enemy_shots.len() implies above_floor(
        fallen(#[trigger] w.enemy_shots[i], dt),
    ) == down.contains(fallen(w.enemy_shots[i], dt)) by {
        let q = fallen(w.enemy_shots[i], dt);
        assert(dropped[i] == q);
        if above_floor(q) {
            dropped.lemma_filter_contains(|p: Point| above_floor(p), i);
        }
        if down.contains(q) {
            let k = choose|k: int| 0 <= k < down.len() && down[k] == q;
            assert(above_floor(down[k]));
        }
    }
}

/// One shot that overlaps an enemy takes exactly the first enemy that it
/// overlaps: after the pass the shot is gone, that enemy is gone, every other
/// enemy is where and as it was, and the score has grown by the points for one enemy.
pub proof fn law_one_shot_takes_one_enemy(w: WorldView, shot: Point, j: int)
    requires
        w.playing(),
        w.player_shots == seq![shot],
        is_first_hit(shot, w.wave, j),
    ensures
        w.volleyed().player_shots.len() == 0,
        w.volleyed().wave == w.wave.remove(j),
        w.volleyed().wave.len() == w.wave.len() - 1,
        forall|i: int| 0 <= i < j ==> w.volleyed().wave[i] == w.wave[i],
        forall|i: int| j <= i < w.wave.len() - 1 ==> w.volleyed().wave[i] == w.wave[i + 1],
        w.volleyed().score == w.score + KILL_SCORE,
{
    lemma_first_hit_unique(shot, w.wave, j);
    let later = w.player_shots.drop_first();
    assert(later.len() == 0);
    assert(volley_resolved(later, w.wave.remove(j)) == (Aftermath {
        shots: Seq::empty(),
        wave: w.wave.remove(j),
    }));
    assert(volley_resolved(w.player_shots, w.wave) == volley_resolved(later, w.wave.remove(j)));
}

/// One shot on the wave is spent on one enemy: if the only shot of the player
/// overlaps an enemy, then after the pass the shot is gone, one enemy is gone,
/// which is the first that the shot overlaps, and the score has grown by the
/// points for one enemy; if the shot overlaps no other enemy, it is that enemy.
pub proof fn law_a_shot_on_an_enemy_takes_it(w: WorldView, shot: Point, m: int)
    requires
        w.playing(),
        w.player_shots == seq![shot],
        0 <= m < w.wave.len(),
        shot_hits_enemy(shot, w.wave[m]),
    ensures
        w.volleyed().player_shots.len() == 0,
        w.volleyed().score == w.score + KILL_SCORE,
        first_hit(shot, w.wave) matches Some(j) && 0 <= j <= m && w.volleyed().wave
            == w.wave.remove(j),
        (forall|i: int| 0 <= i < m ==> !shot_hits_enemy(shot, #[trigger] w.wave[i]))
            ==> w.volleyed().wave == w.wave.remove(m),
{
    let j = lemma_hit_has_first(shot, w.wave, m);
    law_one_shot_takes_one_enemy(w, shot, j);
    lemma_first_hit_unique(shot, w.wave, j);
    if forall|i: int| 0 <= i < m ==> !shot_hits_enemy(shot, #[trigger] w.wave[i]) {
        if j < m {
            assert(!shot_hits_enemy(shot, w.wave[j]));
        }
    }
}

/// No shot hits twice: in a pass as many shots are spent as enemies are hit,
/// the score grows by the points for just these, and what stays of the wave
/// was in it before.
pub proof fn law_one_hit_per_shot(w: WorldView)
    requires
        w.playing(),
    ensures
        w.volleyed().wave.len() <= w.wave.len(),
        w.player_shots.len() - w.volleyed().player_shots.len() == w.wave.len()
            - w.volleyed().wave.len(),
        w.volleyed().score == w.score + KILL_SCORE * (w.wave.len() - w.volleyed().wave.len()),
        forall|k: int|
            0 <= k < w.volleyed().wave.len() ==> w.wave.contains(#[trigger] w.volleyed().wave[k]),
{
    lemma_volley_leaves(w.player_shots, w.wave);
}

/// A hit by an enemy shot costs exactly one life, and nothing else does. Lives
/// never go below zero, and the game is lost in the pass in which they reach it.
pub proof fn law_hit_costs_one_life(w: WorldView)
    requires
        w.sound(),
        w.playing(),
    ensures
        w.struck().lives == if w.player matches Some(p) && first_strike(w.enemy_shots, p) is Some {
            w.lives - 1
        } else {
            w.lives as int
        },
        w.struck().lives == 0 ==> w.struck().state == TerminalState::Lost,
{
}

/// Over a whole frame the lives stay or go down by one, unless the game is
/// restarted; and a world without lives is lost.
pub proof fn law_lives_only_go_down(w: WorldView, dt: nat, input: Input, pick: Option<int>)
    requires
        w.wf(),
    ensures
        w.frame(dt, input, pick).lives == 0 ==> w.frame(dt, input, pick).state
            == TerminalState::Lost,
        ({
            ||| w.frame(dt, input, pick).lives == w.lives
            ||| w.frame(dt, input, pick).lives == w.lives - 1
            ||| input.restart && w.frame(dt, input, pick).lives == START_LIVES
        }),
{
    lemma_frame_wf(w, dt, input, pick);
}

/// The score never goes down but by a restart.
pub proof fn law_score_only_grows(w: WorldView, dt: nat, input: Input, pick: Option<int>)
    ensures
        w.frame(dt, input, pick).score >= w.score || (input.restart && w.frame(
            dt,
            input,
            pick,
        ).score == 0),
{
}

/// The level changes by the controller only: it grows by one with the key
/// for the next level, and goes back to 1 with the restart key.
pub proof fn law_level_changes_by_the_controller(
    w: WorldView,
    dt: nat,
    input: Input,
    pick: Option<int>,
)
    ensures
        ({
            ||| w.frame(dt, input, pick).level == w.level
            ||| input.advance && w.frame(dt, input, pick).level == w.level + 1
            ||| input.restart && w.frame(dt, input, pick).level == 1
        }),
{
}

/// The formation turns before it leaves: an enemy that stands `eps` short of
/// the right margin while the formation goes right and would cover more than
/// `eps` makes the whole formation turn left and step down once, and no enemy
/// moves sideways in that frame.
pub proof fn law_formation_turns_at_the_margin(
    wave: Seq<EnemyView>,
    k: int,
    eps: nat,
    speed: nat,
    dt: nat,
    half_width: int,
)
    requires
        0 <= k < wave.len(),
        wave[k].at.x == half_width - MARGIN - eps,
        stride(speed, dt) > eps,
    ensures
        formation_moved(wave, Heading::Right, stride(speed, dt), half_width).heading
            == Heading::Left,
        formation_moved(wave, Heading::Right, stride(speed, dt), half_width).wave.len()
            == wave.len(),
        forall|i: int|
            0 <= i < wave.len() ==> {
                let after = #[trigger] formation_moved(
                    wave,
                    Heading::Right,
                    stride(speed, dt),
                    half_width,
                ).wave[i];
                &&& after.id == wave[i].id
                &&& after.at.x == wave[i].at.x
                &&& after.at.y == wave[i].at.y - STEP_DOWN
            },
{
    assert(escapes(wave[k], Heading::Right, stride(speed, dt), half_width));
}

/// A wave that is cleared is a game that is won, unless it was over before.
pub proof fn law_cleared_wave_is_won(w: WorldView)
    requires
        w.playing(),
        w.wave.len() == 0,
    ensures
        w.judged().state == TerminalState::Won,
{
}

/// The next level: in a frame in which the game is won, no enemy is left and
/// the key for the next level goes down, the level grows by one, the
/// formation gets faster by the fixed step, a full fresh wave appears and the
/// game goes on. Score and lives stay.
pub proof fn law_next_level(w: WorldView, dt: nat, input: Input, pick: Option<int>)
    requires
        w.state == TerminalState::Won,
        w.wave.len() == 0,
        input.advance,
    ensures
        w.frame(dt, input, pick) == w.advanced(),
        w.frame(dt, input, pick).level == w.level + 1,
        w.frame(dt, input, pick).enemy_speed == w.enemy_speed + ENEMY_SPEED_STEP,
        w.frame(dt, input, pick).wave == fresh_wave(),
        w.frame(dt, input, pick).state == TerminalState::Playing,
        w.frame(dt, input, pick).score == w.score,
        w.frame(dt, input, pick).lives == w.lives,
{
}

/// The speed of the formation is a function of the level in every
/// well-formed world: the base speed and one step for each level passed.
pub proof fn law_speed_follows_level(w: WorldView)
    requires
        w.wf(),
    ensures
        w.enemy_speed == BASE_ENEMY_SPEED + ENEMY_SPEED_STEP * (w.level - 1),
{
}

/// The restart forgets the game: in a frame in which the game is lost and the
/// restart key goes down, whatever the world was, the score is 0, the lives
/// are back, the level is 1, the formation has its base speed, the wave is a
/// fresh wave, the player is at home, no shot is left and the game goes on.
pub proof fn law_restart_forgets(w: WorldView, dt: nat, input: Input, pick: Option<int>)
    requires
        w.state == TerminalState::Lost,
        input.restart,
    ensures
        w.frame(dt, input, pick) == w.restarted(),
        w.frame(dt, input, pick).score == 0,
        w.frame(dt, input, pick).lives == START_LIVES,
        w.frame(dt, input, pick).level == 1,
        w.frame(dt, input, pick).enemy_speed == BASE_ENEMY_SPEED,
        w.frame(dt, input, pick).wave == fresh_wave(),
        w.frame(dt, input, pick).player == Some(home()),
        w.frame(dt, input, pick).player_shots.len() == 0,
        w.frame(dt, input, pick).enemy_shots.len() == 0,
        w.frame(dt, input, pick).state == TerminalState::Playing,
{
}

/// A game that is over stands still: without a key that the controller takes,
/// a frame changes nothing.
pub proof fn law_game_over_is_inert(w: WorldView, dt: nat, input: Input, pick: Option<int>)
    requires
        !w.playing(),
        !w.restarts(input),
        !w.advances(input),
    ensures
        w.frame(dt, input, pick) == w,
{
}

} // verus!
