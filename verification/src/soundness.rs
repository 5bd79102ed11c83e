//! Why every system keeps the world sound, and every frame keeps it well-formed.

use vstd::prelude::*;
use crate::collision::{
    first_hit, first_strike, is_first_hit, is_first_strike, reaches_win_score, score_after,
    volley_resolved,
};
use crate::entities::{EnemyView, Input, TerminalState};
use crate::geometry::Point;
use crate::model::{ids_distinct, inside_margins, WorldView};
use crate::movement::{
    above_floor, below_ceiling, escapes, lemma_enemy_shots_in_play, lemma_player_shots_in_play,
    must_reverse, stride,
};
use crate::progress::{breached, enemy_hits_player, rammed};
use crate::rules::{FLOOR_LINE, MIN_HALF_WIDTH, STEP_DOWN, WAVE_BOTTOM, WAVE_SIZE, WIN_SCORE};
use crate::spawn::{fresh_wave, home, wave_slot};

verus! {

/// The movement system keeps a well-formed world sound.
pub proof fn lemma_moved_sound(w: WorldView, input: Input, dt: nat)
    requires
        w.wf(),
    ensures
        w.moved(input, dt).sound(),
{
    if w.playing() {
        let after = w.moved(input, dt);
        lemma_player_shots_in_play(w.player_shots, dt);
        lemma_enemy_shots_in_play(w.enemy_shots, dt);
        let travel = stride(w.enemy_speed, dt);
        assert(!breached(w.wave));
        assert forall|i: int| 0 <= i < w.wave.len() implies (#[trigger] w.wave[i]).at.y
            > FLOOR_LINE by {}
        if must_reverse(w.wave, w.heading, travel, w.half_width) {
        } else {
            assert forall|i: int| 0 <= i < after.wave.len() implies inside_margins(
                #[trigger] after.wave[i],
                w.half_width,
            ) by {
                assert(!escapes(w.wave[i], w.heading, travel, w.half_width));
            }
        }
    }
}

/// The firing system keeps the world sound.
pub proof fn lemma_fired_sound(w: WorldView, input: Input, dt: nat, pick: Option<int>)
    requires
        w.sound(),
    ensures
        w.fired(input, dt, pick).sound(),
{
}

/// What a volley leaves was there before, in the same order.
pub proof fn lemma_volley_leaves(shots: Seq<Point>, wave: Seq<EnemyView>)
    ensures
        volley_resolved(shots, wave).wave.len() <= wave.len(),
        volley_resolved(shots, wave).shots.len() + wave.len() == shots.len() + volley_resolved(
            shots,
            wave,
        ).wave.len(),
        forall|k: int|
            0 <= k < volley_resolved(shots, wave).wave.len() ==> wave.contains(
                #[trigger] volley_resolved(shots, wave).wave[k],
            ),
        forall|k: int|
            0 <= k < volley_resolved(shots, wave).shots.len() ==> shots.contains(
                #[trigger] volley_resolved(shots, wave).shots[k],
            ),
        ids_distinct(wave) ==> ids_distinct(volley_resolved(shots, wave).wave),
    decreases shots.len(),
{
    let out = volley_resolved(shots, wave);
    if shots.len() == 0 {
        assert forall|k: int| 0 <= k < out.wave.len() implies wave.contains(
            #[trigger] out.wave[k],
        ) by {
            assert(wave[k] == out.wave[k]);
        }
    } else {
        let later = shots.drop_first();
        match first_hit(shots.first(), wave) {
            Some(j) => {
                assert(is_first_hit(shots.first(), wave, j));
                let fewer = wave.remove(j);
                lemma_volley_leaves(later, fewer);
                assert forall|k: int| 0 <= k < out.wave.len() implies wave.contains(
                    #[trigger] out.wave[k],
                ) by {
                    assert(fewer.contains(out.wave[k]));
                    let m = choose|m: int| 0 <= m < fewer.len() && fewer[m] == out.wave[k];
                    if m < j {
                        assert(wave[m] == out.wave[k]);
                    } else {
                        assert(wave[m + 1] == out.wave[k]);
                    }
                }
                assert forall|k: int| 0 <= k < out.shots.len() implies shots.contains(
                    #[trigger] out.shots[k],
                ) by {
                    assert(later.contains(out.shots[k]));
                    let m = choose|m: int| 0 <= m < later.len() && later[m] == out.shots[k];
                    assert(shots[m + 1] == out.shots[k]);
                }
                if ids_distinct(wave) {
                    assert forall|a: int, b: int| 0 <= a < b < fewer.len() implies (
                    #[trigger] fewer[a]).id != (#[trigger] fewer[b]).id by {
                        let a0 = if a < j { a } else { a + 1 };
                        let b0 = if b < j { b } else { b + 1 };
                        assert(fewer[a] == wave[a0]);
                        assert(fewer[b] == wave[b0]);
                    }
                }
            },
            None => {
                lemma_volley_leaves(later, wave);
                let rest = volley_resolved(later, wave);
                assert forall|k: int| 0 <= k < out.shots.len() implies shots.contains(
                    #[trigger] out.shots[k],
                ) by {
                    if k == 0 {
                        assert(shots[0] == out.shots[k]);
                    } else {
                        assert(out.shots[k] == rest.shots[k - 1]);
                        assert(later.contains(rest.shots[k - 1]));
                        let m = choose|m: int| 0 <= m < later.len() && later[m] == rest.shots[k - 1];
                        assert(shots[m + 1] == out.shots[k]);
                    }
                }
            },
        }
    }
}

/// The pass of the player's shots keeps the world sound.
pub proof fn lemma_volleyed_sound(w: WorldView)
    requires
        w.sound(),
    ensures
        w.volleyed().sound(),
{
    if w.playing() {
        let after = w.volleyed();
        lemma_volley_leaves(w.player_shots, w.wave);
        assert forall|i: int| 0 <= i < after.wave.len() implies inside_margins(
            #[trigger] after.wave[i],
            w.half_width,
        ) && after.wave[i].at.y > FLOOR_LINE - STEP_DOWN by {
            assert(w.wave.contains(after.wave[i]));
            let m = choose|m: int| 0 <= m < w.wave.len() && w.wave[m] == after.wave[i];
            assert(inside_margins(w.wave[m], w.half_width));
        }
        assert forall|i: int| 0 <= i < after.player_shots.len() implies below_ceiling(
            #[trigger] after.player_shots[i],
        ) by {
            assert(w.player_shots.contains(after.player_shots[i]));
            let m = choose|m: int|
                0 <= m < w.player_shots.len() && w.player_shots[m] == after.player_shots[i];
            assert(below_ceiling(w.player_shots[m]));
        }
    }
}

/// The pass of the enemy shots keeps the world sound.
pub proof fn lemma_struck_sound(w: WorldView)
    requires
        w.sound(),
    ensures
        w.struck().sound(),
{
    if w.playing() {
        let after = w.struck();
        match w.player {
            Some(p) => match first_strike(w.enemy_shots, p) {
                Some(j) => {
                    assert(is_first_strike(w.enemy_shots, p, j));
                    assert forall|i: int| 0 <= i < after.enemy_shots.len() implies above_floor(
                        #[trigger] after.enemy_shots[i],
                    ) by {
                        let i0 = if i < j { i } else { i + 1 };
                        assert(after.enemy_shots[i] == w.enemy_shots[i0]);
                    }
                },
                None => {},
            },
            None => {},
        }
    }
}

/// The detector makes a sound world well-formed.
pub proof fn lemma_judged_wf(w: WorldView)
    requires
        w.sound(),
    ensures
        w.judged().wf(),
{
}

/// A fresh wave stands inside the margins of any viewport that is wide
/// enough, well above the floor line and away from the player at home.
pub proof fn lemma_fresh_wave(half_width: int)
    requires
        MIN_HALF_WIDTH <= half_width,
    ensures
        fresh_wave().len() == WAVE_SIZE,
        ids_distinct(fresh_wave()),
        forall|i: int|
            0 <= i < fresh_wave().len() ==> inside_margins(#[trigger] fresh_wave()[i], half_width),
        forall|i: int| 0 <= i < fresh_wave().len() ==> (#[trigger] fresh_wave()[i]).at.y >= WAVE_BOTTOM,
        !breached(fresh_wave()),
        !rammed(fresh_wave(), Some(home())),
{
    assert forall|i: int| 0 <= i < fresh_wave().len() implies inside_margins(
        #[trigger] fresh_wave()[i],
        half_width,
    ) && fresh_wave()[i].at.y >= WAVE_BOTTOM && !enemy_hits_player(fresh_wave()[i], home()) by {
        assert(fresh_wave()[i] == wave_slot(i));
    }
}

/// The controller keeps the world well-formed.
pub proof fn lemma_controlled_wf(w: WorldView, input: Input)
    requires
        w.wf(),
    ensures
        w.controlled(input).wf(),
{
    lemma_fresh_wave(w.half_width);
}

/// A frame keeps the world well-formed.
pub proof fn lemma_frame_wf(w: WorldView, dt: nat, input: Input, pick: Option<int>)
    requires
        w.wf(),
    ensures
        w.frame(dt, input, pick).wf(),
{
    let a = w.moved(input, dt);
    lemma_moved_sound(w, input, dt);
    let b = a.fired(input, dt, pick);
    lemma_fired_sound(a, input, dt, pick);
    let c = b.volleyed();
    lemma_volleyed_sound(b);
    let d = c.struck();
    lemma_struck_sound(c);
    lemma_judged_wf(d);
    lemma_controlled_wf(d.judged(), input);
}

/// A frame keeps the account of the score, and with it a won game free of enemies.
pub proof fn lemma_frame_keeps_account(w: WorldView, dt: nat, input: Input, pick: Option<int>)
    requires
        w.wf(),
        w.accounted(),
        w.state == TerminalState::Won ==> w.wave.len() == 0,
    ensures
        w.frame(dt, input, pick).accounted(),
        w.frame(dt, input, pick).state == TerminalState::Won ==> w.frame(dt, input, pick).wave.len()
            == 0,
{
    let a = w.moved(input, dt);
    lemma_moved_sound(w, input, dt);
    let b = a.fired(input, dt, pick);
    lemma_fired_sound(a, input, dt, pick);
    assert(b.wave.len() == w.wave.len());
    assert(b.accounted());
    let c = b.volleyed();
    lemma_volleyed_sound(b);
    lemma_volley_leaves(b.player_shots, b.wave);
    assert(c.accounted());
    if b.playing() && reaches_win_score(b.score, b.kills()) {
        let k = choose|k: nat| 1 <= k <= b.kills() && #[trigger] score_after(b.score, k) == WIN_SCORE;
        assert(b.level == 1);
        assert(c.wave.len() == 0);
    }
    assert(c.state == TerminalState::Won ==> c.wave.len() == 0);
    let d = c.struck();
    lemma_struck_sound(c);
    let e = d.judged();
    lemma_judged_wf(d);
    assert(e.accounted());
    assert(e.state == TerminalState::Won ==> e.wave.len() == 0);
    lemma_fresh_wave(w.half_width);
}

} // verus!
