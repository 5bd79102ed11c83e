//! The world state and the frame that advances it.

use vstd::prelude::*;
use crate::collision::{award_kills, resolve_enemy_shots, resolve_player_shots};
use crate::entities::{point_of, points, wave_view, Enemy, Heading, Input, TerminalState};
use crate::firing::{fair_pick, fire_enemy_shot, fire_enemy_shot_with, fire_player_shot, pick_view};
use crate::geometry::{Kind, Position, PLAYER_HALF_WIDTH};
use crate::model::{fresh_world, ids_distinct, inside_margins, WorldView};
use crate::movement::{
    above_floor, below_ceiling, move_enemy_shots, move_formation, move_player, move_player_shots,
};
use crate::progress::evaluate;
use crate::rules::{
    BASE_ENEMY_SPEED, ENEMY_COOLDOWN, ENEMY_SPEED_STEP, FLOOR_LINE, KILL_SCORE, MARGIN,
    MIN_HALF_WIDTH, PLAYER_COOLDOWN, PLAYER_HOME_Y, SHOT_CEILING, SHOT_FLOOR, START_LIVES,
    STEP_DOWN, WAVE_SIZE,
};
use crate::soundness::{
    lemma_controlled_wf, lemma_fired_sound, lemma_fresh_wave, lemma_judged_wf, lemma_moved_sound,
    lemma_struck_sound, lemma_volleyed_sound,
};
use crate::spawn::{spawn_player, spawn_wave};
use crate::timer::Cooldown;

verus! {

/// The state of the simulation: every live entity and every counter. The
/// simulation owns it; a renderer reads it after each frame.
#[derive(Clone, Debug, PartialEq, Eq)]
pub struct World {
    /// Half the width of the viewport, in micro-pixels.
    pub half_width: i64,
    /// The player, unless it has been hit and not come back.
    pub player: Option<Position>,
    /// The live enemies.
    pub wave: Vec<Enemy>,
    /// The shots of the player, oldest first.
    pub player_shots: Vec<Position>,
    /// The shots of the enemies, oldest first.
    pub enemy_shots: Vec<Position>,
    /// The direction of the formation.
    pub heading: Heading,
    pub score: u64,
    pub lives: u32,
    pub level: u32,
    /// The speed of the formation, in pixels per second.
    pub enemy_speed: u64,
    pub state: TerminalState,
    pub player_cooldown: Cooldown,
    pub enemy_cooldown: Cooldown,
}

impl View for World {
    type V = WorldView;

    open spec fn view(&self) -> WorldView {
        WorldView {
            half_width: self.half_width as int,
            player: point_of(self.player),
            wave: wave_view(self.wave@),
            player_shots: points(self.player_shots@),
            enemy_shots: points(self.enemy_shots@),
            heading: self.heading,
            score: self.score as nat,
            lives: self.lives as nat,
            level: self.level as nat,
            enemy_speed: self.enemy_speed as nat,
            state: self.state,
            player_cooldown: self.player_cooldown@,
            enemy_cooldown: self.enemy_cooldown@,
        }
    }
}

/// Says whether no two enemies of the wave have the same id.
pub fn has_distinct_ids(wave: &Vec<Enemy>) -> (distinct: bool)
    ensures
        distinct == ids_distinct(wave_view(wave@)),
{
    let n = wave.len();
    let mut j: usize = 0;
    while j < n
        invariant
            j <= n,
            n == wave@.len(),
            forall|a: int, b: int|
                0 <= a < b < j ==> (#[trigger] wave_view(wave@)[a]).id != (
                #[trigger] wave_view(wave@)[b]).id,
        decreases n - j,
    {
        let mut i: usize = 0;
        while i < j
            invariant
                i <= j < n,
                n == wave@.len(),
                forall|a: int|
                    0 <= a < i ==> (#[trigger] wave_view(wave@)[a]).id != wave_view(wave@)[j as int].id,
            decreases j - i,
        {
            if wave[i].id == wave[j].id {
                assert(wave_view(wave@)[i as int].id == wave_view(wave@)[j as int].id);
                return false;
            }
            i += 1;
        }
        j += 1;
    }
    true
}

/// Says whether every enemy keeps the margin from the sides of the viewport
/// and stands less than one step below the floor line.
pub fn wave_in_bounds(wave: &Vec<Enemy>, half_width: i64) -> (inside: bool)
    requires
        MARGIN <= half_width,
    ensures
        inside == (forall|i: int|
            0 <= i < wave@.len() ==> {
                &&& inside_margins(#[trigger] wave_view(wave@)[i], half_width as int)
                &&& wave_view(wave@)[i].at.y > FLOOR_LINE - STEP_DOWN
            }),
{
    let mut i: usize = 0;
    while i < wave.len()
        invariant
            i <= wave.len(),
            MARGIN <= half_width,
            forall|k: int|
                0 <= k < i ==> {
                    &&& inside_margins(#[trigger] wave_view(wave@)[k], half_width as int)
                    &&& wave_view(wave@)[k].at.y > FLOOR_LINE - STEP_DOWN
                },
        decreases wave.len() - i,
    {
        let p = wave[i].pos;
        if p.x < MARGIN - half_width || p.x > half_width - MARGIN || p.y <= FLOOR_LINE - STEP_DOWN {
            assert(!(inside_margins(wave_view(wave@)[i as int], half_width as int) && wave_view(
                wave@,
            )[i as int].at.y > FLOOR_LINE - STEP_DOWN));
            return false;
        }
        i += 1;
    }
    true
}

/// Says whether no player shot is above the ceiling.
pub fn all_below_ceiling(shots: &Vec<Position>) -> (all: bool)
    ensures
        all == (forall|i: int|
            0 <= i < points(shots@).len() ==> below_ceiling(#[trigger] points(shots@)[i])),
{
    let mut i: usize = 0;
    while i < shots.len()
        invariant
            i <= shots.len(),
            forall|k: int| 0 <= k < i ==> below_ceiling(#[trigger] points(shots@)[k]),
        decreases shots.len() - i,
    {
        if shots[i].y > SHOT_CEILING {
            assert(!below_ceiling(points(shots@)[i as int]));
            return false;
        }
        i += 1;
    }
    true
}

/// Says whether no enemy shot is below the floor.
pub fn all_above_floor(shots: &Vec<Position>) -> (all: bool)
    ensures
        all == (forall|i: int|
            0 <= i < points(shots@).len() ==> above_floor(#[trigger] points(shots@)[i])),
{
    let mut i: usize = 0;
    while i < shots.len()
        invariant
            i <= shots.len(),
            forall|k: int| 0 <= k < i ==> above_floor(#[trigger] points(shots@)[k]),
        decreases shots.len() - i,
    {
        if shots[i].y < SHOT_FLOOR {
            assert(!above_floor(points(shots@)[i as int]));
            return false;
        }
        i += 1;
    }
    true
}

impl World {
    /// The world at the start of a game, or nothing if the viewport is too
    /// narrow to hold a fresh wave inside its margins.
    pub fn new(half_width: i64) -> (world: Option<World>)
        ensures
            match world {
                Some(w) => MIN_HALF_WIDTH <= half_width && w@ == fresh_world(half_width as int)
                    && w@.wf(),
                None => half_width < MIN_HALF_WIDTH,
            },
    {
        if half_width < MIN_HALF_WIDTH {
            return None;
        }
        let w = World {
            half_width,
            player: Some(spawn_player()),
            wave: spawn_wave(),
            player_shots: Vec::new(),
            enemy_shots: Vec::new(),
            heading: Heading::Right,
            score: 0,
            lives: START_LIVES,
            level: 1,
            enemy_speed: BASE_ENEMY_SPEED,
            state: TerminalState::Playing,
            player_cooldown: Cooldown::new(PLAYER_COOLDOWN),
            enemy_cooldown: Cooldown::new(ENEMY_COOLDOWN),
        };
        proof {
            assert(w@.player_shots =~= Seq::empty());
            assert(w@.enemy_shots =~= Seq::empty());
            lemma_fresh_wave(half_width as int);
        }
        Some(w)
    }

    /// Lists where the live entities of a kind are, for whoever draws the
    /// world. The kind gives the size of their boxes.
    pub fn positions(&self, kind: Kind) -> (found: Vec<Position>)
        ensures
            points(found@) == self@.positions(kind),
    {
        match kind {
            Kind::Player => {
                let mut found: Vec<Position> = Vec::new();
                match self.player {
                    Some(p) => {
                        found.push(p);
                        assert(points(found@) =~= seq![p@]);
                    },
                    None => {
                        assert(points(found@) =~= Seq::empty());
                    },
                }
                found
            },
            Kind::Enemy => {
                let mut found: Vec<Position> = Vec::new();
                let mut i: usize = 0;
                while i < self.wave.len()
                    invariant
                        i <= self.wave.len(),
                        found@.len() == i,
                        forall|k: int| 0 <= k < i ==> (#[trigger] found@[k])@ == self.wave@[k]@.at,
                    decreases self.wave.len() - i,
                {
                    found.push(self.wave[i].pos);
                    i += 1;
                }
                assert(points(found@) =~= self@.positions(kind));
                found
            },
            Kind::PlayerShot => self.player_shots.clone(),
            Kind::EnemyShot => self.enemy_shots.clone(),
        }
    }

    /// Says whether the world is well-formed.
    pub fn is_valid(&self) -> (valid: bool)
        ensures
            valid == self@.wf(),
    {
        if self.half_width < MIN_HALF_WIDTH || self.lives > START_LIVES || self.level < 1 {
            return false;
        }
        if self.lives == 0 && !matches!(self.state, TerminalState::Lost) {
            return false;
        }
        if self.enemy_speed != BASE_ENEMY_SPEED + ENEMY_SPEED_STEP * ((self.level - 1) as u64) {
            return false;
        }
        if self.wave.len() > WAVE_SIZE as usize {
            return false;
        }
        let earned: u128 = self.score as u128 + (KILL_SCORE as u128) * (self.wave.len() as u128);
        let per_wave: u128 = (WAVE_SIZE as u128) * (KILL_SCORE as u128);
        let limit: u128 = per_wave * (self.level as u128);
        if earned > limit {
            return false;
        }
        if !has_distinct_ids(&self.wave) || !wave_in_bounds(&self.wave, self.half_width) {
            return false;
        }
        match self.player {
            Some(p) => {
                let leftmost: i64 = PLAYER_HALF_WIDTH - self.half_width;
                let rightmost: i64 = self.half_width - PLAYER_HALF_WIDTH;
                if p.x < leftmost || p.x > rightmost || p.y != PLAYER_HOME_Y {
                    return false;
                }
            },
            None => {},
        }
        if !all_below_ceiling(&self.player_shots) {
            proof {
                let i = choose|i: int|
                    0 <= i < self@.player_shots.len() && !below_ceiling(self@.player_shots[i]);
                assert(!below_ceiling(self@.player_shots[i]));
            }
            return false;
        }
        if !all_above_floor(&self.enemy_shots) {
            proof {
                let i = choose|i: int|
                    0 <= i < self@.enemy_shots.len() && !above_floor(self@.enemy_shots[i]);
                assert(!above_floor(self@.enemy_shots[i]));
            }
            return false;
        }
        evaluate(self.state, &self.wave, self.player) == self.state
    }

    /// Runs the movement system: the player, the shots and the formation move.
    pub fn run_movement(&mut self, input: Input, dt: u32)
        requires
            old(self)@.wf(),
        ensures
            final(self)@ == old(self)@.moved(input, dt as nat),
            final(self)@.sound(),
    {
        if matches!(self.state, TerminalState::Playing) {
            match self.player {
                Some(p) => {
                    self.player = Some(move_player(p, input, dt, self.half_width));
                },
                None => {},
            }
            move_player_shots(&mut self.player_shots, dt);
            move_enemy_shots(&mut self.enemy_shots, dt);
            move_formation(&mut self.wave, &mut self.heading, self.enemy_speed, dt, self.half_width);
        }
        proof {
            lemma_moved_sound(old(self)@, input, dt as nat);
        }
    }

    /// Runs the firing system; enemy `pick` shoots if the enemies' cooldown fires.
    pub fn run_firing_with(&mut self, input: Input, dt: u32, pick: Option<usize>)
        requires
            old(self)@.sound(),
        ensures
            final(self)@ == old(self)@.fired(input, dt as nat, pick_view(pick)),
            final(self)@.sound(),
    {
        if matches!(self.state, TerminalState::Playing) {
            fire_player_shot(
                &mut self.player_shots,
                self.player,
                &mut self.player_cooldown,
                input.fire,
                dt,
            );
            fire_enemy_shot_with(&mut self.enemy_shots, &self.wave, &mut self.enemy_cooldown, dt, pick);
        }
        proof {
            lemma_fired_sound(old(self)@, input, dt as nat, pick_view(pick));
        }
    }

    /// Runs the firing system, and returns the enemy that chance picked to
    /// shoot, if the enemies' cooldown fired and there was an enemy.
    pub fn run_firing(&mut self, input: Input, dt: u32) -> (pick: Option<usize>)
        requires
            old(self)@.sound(),
        ensures
            final(self)@ == old(self)@.fired(input, dt as nat, pick_view(pick)),
            final(self)@.sound(),
            old(self)@.shoots(dt as nat) ==> fair_pick(pick_view(pick), old(self)@.wave.len()),
            !old(self)@.shoots(dt as nat) ==> pick is None,
    {
        let mut pick: Option<usize> = None;
        if matches!(self.state, TerminalState::Playing) {
            fire_player_shot(
                &mut self.player_shots,
                self.player,
                &mut self.player_cooldown,
                input.fire,
                dt,
            );
            pick = fire_enemy_shot(&mut self.enemy_shots, &self.wave, &mut self.enemy_cooldown, dt);
        }
        proof {
            lemma_fired_sound(old(self)@, input, dt as nat, pick_view(pick));
        }
        pick
    }

    /// Runs the pass of the player's shots against the wave.
    pub fn run_player_shots(&mut self)
        requires
            old(self)@.sound(),
        ensures
            final(self)@ == old(self)@.volleyed(),
            final(self)@.sound(),
    {
        if matches!(self.state, TerminalState::Playing) {
            let kills = resolve_player_shots(&mut self.player_shots, &mut self.wave);
            assert(self.score + KILL_SCORE * kills <= WAVE_SIZE * KILL_SCORE * self.level);
            if award_kills(&mut self.score, kills) {
                self.state = TerminalState::Won;
            }
        }
        proof {
            lemma_volleyed_sound(old(self)@);
        }
    }

    /// Runs the pass of the enemy shots against the player.
    pub fn run_enemy_shots(&mut self)
        requires
            old(self)@.sound(),
        ensures
            final(self)@ == old(self)@.struck(),
            final(self)@.sound(),
    {
        if matches!(self.state, TerminalState::Playing) {
            if resolve_enemy_shots(&mut self.enemy_shots, &mut self.player, &mut self.lives) {
                self.state = TerminalState::Lost;
            }
        }
        proof {
            lemma_struck_sound(old(self)@);
        }
    }

    /// Runs the detector of the terminal state.
    pub fn run_detector(&mut self)
        requires
            old(self)@.sound(),
        ensures
            final(self)@ == old(self)@.judged(),
            final(self)@.wf(),
    {
        self.state = evaluate(self.state, &self.wave, self.player);
        proof {
            lemma_judged_wf(old(self)@);
        }
    }

    /// Starts a new game in the same viewport.
    pub fn restart(&mut self)
        ensures
            final(self)@ == old(self)@.restarted(),
            MIN_HALF_WIDTH <= old(self).half_width ==> final(self)@.wf(),
    {
        self.player = Some(spawn_player());
        self.wave = spawn_wave();
        self.player_shots = Vec::new();
        self.enemy_shots = Vec::new();
        self.score = 0;
        self.lives = START_LIVES;
        self.level = 1;
        self.enemy_speed = BASE_ENEMY_SPEED;
        self.state = TerminalState::Playing;
        proof {
            assert(self@.player_shots =~= Seq::empty());
            assert(self@.enemy_shots =~= Seq::empty());
            if MIN_HALF_WIDTH <= self.half_width {
                lemma_fresh_wave(self.half_width as int);
            }
        }
    }

    /// Opens the next level.
    pub fn next_level(&mut self)
        requires
            old(self).level < u32::MAX,
            old(self).enemy_speed + ENEMY_SPEED_STEP <= u64::MAX,
        ensures
            final(self)@ == old(self)@.advanced(),
            old(self)@.wf() && old(self)@.state == TerminalState::Won && old(self)@.wave.len() == 0
                ==> final(self)@.wf(),
    {
        self.player = Some(spawn_player());
        self.wave = spawn_wave();
        self.player_shots = Vec::new();
        self.enemy_shots = Vec::new();
        self.level = self.level + 1;
        self.enemy_speed = self.enemy_speed + ENEMY_SPEED_STEP;
        self.state = TerminalState::Playing;
        proof {
            assert(self@.player_shots =~= Seq::empty());
            assert(self@.enemy_shots =~= Seq::empty());
            if old(self)@.wf() && old(self)@.state == TerminalState::Won && old(self)@.wave.len()
                == 0 {
                let key = Input {
                    left: false,
                    right: false,
                    fire: false,
                    restart: false,
                    advance: true,
                };
                lemma_controlled_wf(old(self)@, key);
            }
        }
    }

    /// Runs the controller: it takes the restart key while the game is lost,
    /// and the key for the next level while the game is won and no enemy is left.
    pub fn run_controller(&mut self, input: Input)
        requires
            old(self)@.wf(),
            old(self).level < u32::MAX,
        ensures
            final(self)@ == old(self)@.controlled(input),
            final(self)@.wf(),
    {
        if input.restart && matches!(self.state, TerminalState::Lost) {
            self.restart();
        } else if input.advance && matches!(self.state, TerminalState::Won) && self.wave.len() == 0 {
            self.next_level();
        }
        proof {
            lemma_controlled_wf(old(self)@, input);
        }
    }

    /// Advances the world by one frame of `dt` microseconds, in which enemy
    /// `pick` is the one to shoot.
    pub fn step_with(&mut self, dt: u32, input: Input, pick: Option<usize>)
        requires
            old(self)@.wf(),
            old(self).level < u32::MAX,
        ensures
            final(self)@ == old(self)@.frame(dt as nat, input, pick_view(pick)),
            final(self)@.wf(),
    {
        self.run_movement(input, dt);
        self.run_firing_with(input, dt, pick);
        self.run_player_shots();
        self.run_enemy_shots();
        self.run_detector();
        self.run_controller(input);
    }

    /// Advances the world by one frame of `dt` microseconds, and returns the
    /// enemy that chance picked to shoot, if one shot.
    pub fn step(&mut self, dt: u32, input: Input) -> (pick: Option<usize>)
        requires
            old(self)@.wf(),
            old(self).level < u32::MAX,
        ensures
            final(self)@ == old(self)@.frame(dt as nat, input, pick_view(pick)),
            final(self)@.wf(),
            old(self)@.shoots(dt as nat) ==> fair_pick(pick_view(pick), old(self)@.wave.len()),
            !old(self)@.shoots(dt as nat) ==> pick is None,
    {
        self.run_movement(input, dt);
        let pick = self.run_firing(input, dt);
        self.run_player_shots();
        self.run_enemy_shots();
        self.run_detector();
        self.run_controller(input);
        pick
    }
}

} // verus!
