//! The world as a mathematical value, and a frame as a function on it.
//!
//! A frame runs the systems in a fixed order: movement, firing, the two
//! collision passes, the detector of the terminal state, and the controller
//! that restarts the game or opens the next level. Every system but the
//! controller leaves a game that is over as it is.

use vstd::prelude::*;
use crate::collision::{player_struck, reaches_win_score, score_after, volley_resolved};
use crate::entities::{EnemyView, Heading, Input, TerminalState};
use crate::firing::{enemy_fired, player_fired};
use crate::geometry::{Kind, Point, PLAYER_HALF_WIDTH};
use crate::movement::{
    above_floor, below_ceiling, enemy_shots_moved, formation_moved, player_moved,
    player_shots_moved, stride,
};
use crate::progress::verdict;
use crate::rules::{
    BASE_ENEMY_SPEED, ENEMY_COOLDOWN, ENEMY_SPEED_STEP, FLOOR_LINE, KILL_SCORE, MARGIN,
    MIN_HALF_WIDTH, PLAYER_COOLDOWN, PLAYER_HOME_Y, START_LIVES, STEP_DOWN, WAVE_SIZE,
};
use crate::spawn::{fresh_wave, home};
use crate::timer::CooldownView;

verus! {

/// The view of a `World`: all live entities and all counters.
pub struct WorldView {
    /// Half the width of the viewport.
    pub half_width: int,
    pub player: Option<Point>,
    pub wave: Seq<EnemyView>,
    pub player_shots: Seq<Point>,
    pub enemy_shots: Seq<Point>,
    /// The direction of the formation.
    pub heading: Heading,
    pub score: nat,
    pub lives: nat,
    pub level: nat,
    /// The speed of the formation, in pixels per second.
    pub enemy_speed: nat,
    pub state: TerminalState,
    pub player_cooldown: CooldownView,
    pub enemy_cooldown: CooldownView,
}

/// The speed of the formation on a level.
pub open spec fn speed_on_level(level: nat) -> nat {
    (BASE_ENEMY_SPEED + ENEMY_SPEED_STEP * (level - 1)) as nat
}

/// No two enemies of the wave have the same id.
pub open spec fn ids_distinct(wave: Seq<EnemyView>) -> bool {
    forall|i: int, j: int|
        0 <= i < j < wave.len() ==> (#[trigger] wave[i]).id != (#[trigger] wave[j]).id
}

/// The centre of the enemy keeps the margin from both sides of the viewport.
pub open spec fn inside_margins(e: EnemyView, half_width: int) -> bool {
    MARGIN - half_width <= e.at.x <= half_width - MARGIN
}

/// The world at the start of a game in a viewport of the given half width.
pub open spec fn fresh_world(half_width: int) -> WorldView {
    WorldView {
        half_width,
        player: Some(home()),
        wave: fresh_wave(),
        player_shots: Seq::empty(),
        enemy_shots: Seq::empty(),
        heading: Heading::Right,
        score: 0,
        lives: START_LIVES as nat,
        level: 1,
        enemy_speed: BASE_ENEMY_SPEED as nat,
        state: TerminalState::Playing,
        player_cooldown: CooldownView { elapsed: 0, threshold: PLAYER_COOLDOWN as nat },
        enemy_cooldown: CooldownView { elapsed: 0, threshold: ENEMY_COOLDOWN as nat },
    }
}

impl WorldView {
    /// Where the live entities of a kind are, in the order of the world.
    pub open spec fn positions(self, kind: Kind) -> Seq<Point> {
        match kind {
            Kind::Player => match self.player {
                Some(p) => seq![p],
                None => Seq::empty(),
            },
            Kind::Enemy => self.wave.map_values(|e: EnemyView| e.at),
            Kind::PlayerShot => self.player_shots,
            Kind::EnemyShot => self.enemy_shots,
        }
    }

    /// The game goes on.
    pub open spec fn playing(self) -> bool {
        self.state == TerminalState::Playing
    }

    /// What holds of the world at every moment, between the systems of a frame too.
    pub open spec fn sound(self) -> bool {
        &&& MIN_HALF_WIDTH <= self.half_width
        &&& self.lives <= START_LIVES
        &&& (self.lives == 0 ==> self.state == TerminalState::Lost)
        &&& 1 <= self.level
        &&& self.enemy_speed == speed_on_level(self.level)
        &&& self.wave.len() <= WAVE_SIZE
        &&& self.score + KILL_SCORE * self.wave.len() <= WAVE_SIZE * KILL_SCORE * self.level
        &&& ids_distinct(self.wave)
        &&& forall|i: int|
            0 <= i < self.wave.len() ==> inside_margins(#[trigger] self.wave[i], self.half_width)
        &&& forall|i: int|
            0 <= i < self.wave.len() ==> (#[trigger] self.wave[i]).at.y > FLOOR_LINE - STEP_DOWN
        &&& (self.player matches Some(p) ==> {
            &&& PLAYER_HALF_WIDTH - self.half_width <= p.x <= self.half_width - PLAYER_HALF_WIDTH
            &&& p.y == PLAYER_HOME_Y
        })
        &&& forall|i: int|
            0 <= i < self.player_shots.len() ==> below_ceiling(#[trigger] self.player_shots[i])
        &&& forall|i: int|
            0 <= i < self.enemy_shots.len() ==> above_floor(#[trigger] self.enemy_shots[i])
    }

    /// The detector of the terminal state has nothing to add: a game that goes
    /// on has enemies, none of them at the floor line or at the player.
    pub open spec fn settled(self) -> bool {
        verdict(self.state, self.wave, self.player) == self.state
    }

    /// The score is that of a game played from its start: the points for
    /// every enemy of the waves so far that is no longer there.
    pub open spec fn accounted(self) -> bool {
        self.score + KILL_SCORE * self.wave.len() == WAVE_SIZE * KILL_SCORE * self.level
    }

    /// What holds of the world between two frames.
    pub open spec fn wf(self) -> bool {
        self.sound() && self.settled()
    }

    /// The world after the movement system.
    pub open spec fn moved(self, input: Input, dt: nat) -> WorldView {
        if !self.playing() {
            self
        } else {
            let sweep = formation_moved(
                self.wave,
                self.heading,
                stride(self.enemy_speed, dt),
                self.half_width,
            );
            WorldView {
                player: match self.player {
                    Some(p) => Some(player_moved(p, input.axis(), dt, self.half_width)),
                    None => None,
                },
                player_shots: player_shots_moved(self.player_shots, dt),
                enemy_shots: enemy_shots_moved(self.enemy_shots, dt),
                wave: sweep.wave,
                heading: sweep.heading,
                ..self
            }
        }
    }

    /// The enemies' cooldown fires in a frame of `dt` microseconds that starts
    /// in this world, so that chance has an enemy to pick if there is one.
    pub open spec fn shoots(self, dt: nat) -> bool {
        self.playing() && self.enemy_cooldown.fires(dt)
    }

    /// The world after the firing system. Both cooldowns run; the player
    /// shoots if its cooldown fires while the fire key is held, and enemy
    /// `pick` shoots if the enemies' cooldown fires.
    pub open spec fn fired(self, input: Input, dt: nat, pick: Option<int>) -> WorldView {
        if !self.playing() {
            self
        } else {
            WorldView {
                player_cooldown: self.player_cooldown.advanced(dt),
                player_shots: player_fired(
                    self.player_shots,
                    self.player,
                    self.player_cooldown.fires(dt),
                    input.fire,
                ),
                enemy_cooldown: self.enemy_cooldown.advanced(dt),
                enemy_shots: if self.enemy_cooldown.fires(dt) {
                    enemy_fired(self.enemy_shots, self.wave, pick)
                } else {
                    self.enemy_shots
                },
                ..self
            }
        }
    }

    /// The enemies that the player's shots take out of the wave in this frame.
    pub open spec fn kills(self) -> nat {
        (self.wave.len() - volley_resolved(self.player_shots, self.wave).wave.len()) as nat
    }

    /// The world after the player's shots have met the wave. Every enemy hit
    /// adds to the score. The game is won if the score stands at the winning
    /// score after one of them: the older of the two winning rules.
    pub open spec fn volleyed(self) -> WorldView {
        if !self.playing() {
            self
        } else {
            let aftermath = volley_resolved(self.player_shots, self.wave);
            WorldView {
                player_shots: aftermath.shots,
                wave: aftermath.wave,
                score: score_after(self.score, self.kills()),
                state: if reaches_win_score(self.score, self.kills()) {
                    TerminalState::Won
                } else {
                    TerminalState::Playing
                },
                ..self
            }
        }
    }

    /// The world after the enemy shots have met the player.
    pub open spec fn struck(self) -> WorldView {
        if !self.playing() {
            self
        } else {
            let strike = player_struck(self.enemy_shots, self.player, self.lives);
            WorldView {
                enemy_shots: strike.shots,
                player: strike.player,
                lives: strike.lives,
                state: if strike.lost {
                    TerminalState::Lost
                } else {
                    TerminalState::Playing
                },
                ..self
            }
        }
    }

    /// The world after the detector of the terminal state.
    pub open spec fn judged(self) -> WorldView {
        WorldView { state: verdict(self.state, self.wave, self.player), ..self }
    }

    /// The world after a restart: a new game in the same viewport. The
    /// direction of the formation and the cooldowns are not entities or
    /// counters of the game, and stay.
    pub open spec fn restarted(self) -> WorldView {
        WorldView {
            player: Some(home()),
            wave: fresh_wave(),
            player_shots: Seq::empty(),
            enemy_shots: Seq::empty(),
            score: 0,
            lives: START_LIVES as nat,
            level: 1,
            enemy_speed: BASE_ENEMY_SPEED as nat,
            state: TerminalState::Playing,
            ..self
        }
    }

    /// The world on the next level: a fresh wave that is faster, the player at
    /// home, no shots. Score and lives stay.
    pub open spec fn advanced(self) -> WorldView {
        WorldView {
            player: Some(home()),
            wave: fresh_wave(),
            player_shots: Seq::empty(),
            enemy_shots: Seq::empty(),
            level: self.level + 1,
            enemy_speed: self.enemy_speed + ENEMY_SPEED_STEP as nat,
            state: TerminalState::Playing,
            ..self
        }
    }

    /// The restart key is taken: it went down in this frame and the game is lost.
    pub open spec fn restarts(self, input: Input) -> bool {
        input.restart && self.state == TerminalState::Lost
    }

    /// The key for the next level is taken: it went down in this frame, the
    /// game is won and no enemy is left.
    pub open spec fn advances(self, input: Input) -> bool {
        input.advance && self.state == TerminalState::Won && self.wave.len() == 0
    }

    /// The world after the controller.
    pub open spec fn controlled(self, input: Input) -> WorldView {
        if self.restarts(input) {
            self.restarted()
        } else if self.advances(input) {
            self.advanced()
        } else {
            self
        }
    }

    /// The world after one frame of `dt` microseconds with the given input, in
    /// which chance picks enemy `pick` to shoot.
    pub open spec fn frame(self, dt: nat, input: Input, pick: Option<int>) -> WorldView {
        self.moved(input, dt).fired(input, dt, pick).volleyed().struck().judged().controlled(input)
    }
}

/// What a frame takes from outside: the time that has passed, the keys, and
/// the enemy that chance picks to shoot.
pub struct Tick {
    pub dt: nat,
    pub input: Input,
    pub pick: Option<int>,
}

/// The world after a run of frames, one for each tick.
pub open spec fn after_frames(w: WorldView, ticks: Seq<Tick>) -> WorldView
    decreases ticks.len(),
{
    if ticks.len() == 0 {
        w
    } else {
        let last = ticks.last();
        after_frames(w, ticks.drop_last()).frame(last.dt, last.input, last.pick)
    }
}

} // verus!
