//! The session controller: the world state, its life cycle, and the entry
//! points a host drives it with.
//!
//! The host starts a session, which puts the initial burst in place, applies
//! a jump for every fresh input edge, calls `step` once per fixed tick and
//! `spawn_one` once per spawn period, and looks at the state that `step`
//! returns.

use vstd::prelude::*;
use crate::config::Config;
use crate::config::SimError;
use crate::kinematics::Gravity;
use crate::kinematics::Velocity;
use crate::kinematics::fits;
use crate::kinematics::position_after;
use crate::kinematics::velocity_after;
use crate::pipes::ObstaclePair;
use crate::pipes::bounded;
use crate::pipes::burst_valid;
use crate::pipes::initial_pipes;
use crate::pipes::ordered;
use crate::pipes::scrolled;
use crate::collision::any_hit;
use crate::collision::out_of_bounds;

verus! {

/// Whether the session is running. `GameOver` is left only by a reset.
#[derive(Clone, Copy, Debug, PartialEq, Eq, Structural)]
pub enum SessionState {
    Active,
    GameOver,
}

/// The one player of a session. It never moves horizontally.
#[derive(Clone, Copy, Debug, PartialEq, Eq, Structural)]
pub struct Player {
    /// Vertical offset from the centre of the world.
    pub position_y: i64,
    pub velocity: Velocity,
    pub gravity: Gravity,
}

/// Creates the player of a fresh session: at the centre height, at rest,
/// under the configured gravity.
pub fn setup(cfg: &Config) -> (p: Player)
    ensures
        p == (Player { position_y: 0, velocity: Velocity(0), gravity: Gravity(cfg.gravity) }),
{
    Player { position_y: 0, velocity: Velocity(0), gravity: Gravity(cfg.gravity) }
}

/// The world as a mathematical value.
pub struct World {
    pub config: Config,
    pub position_y: int,
    pub velocity_y: int,
    pub gravity: int,
    /// The live pairs, oldest first.
    pub pipes: Seq<ObstaclePair>,
    /// The handle that the next spawned pair will get.
    pub next_id: int,
    pub score: int,
    pub state: SessionState,
}

impl World {
    /// The state of a session right after it starts: the player at rest at
    /// the centre height, the initial burst in place, no score.
    pub open spec fn initial(cfg: Config) -> World {
        World {
            config: cfg,
            position_y: 0,
            velocity_y: 0,
            gravity: cfg.gravity as int,
            pipes: initial_pipes(cfg.pipe_start as int, cfg.spawn_x(), cfg.spawn_count as int, 0),
            next_id: cfg.spawn_count as int,
            score: 0,
            state: SessionState::Active,
        }
    }

    /// Every number of the world is a machine value.
    pub open spec fn representable(self) -> bool {
        &&& fits(self.position_y)
        &&& fits(self.velocity_y)
        &&& 0 <= self.next_id <= u64::MAX
        &&& 0 <= self.score <= u64::MAX
    }

    /// What holds of the world between any two operations.
    pub open spec fn wf(self) -> bool {
        &&& self.config.valid()
        &&& self.representable()
        &&& self.gravity == self.config.gravity
        &&& ordered(self.pipes)
        &&& bounded(self.pipes, self.next_id, self.config.spawn_x())
    }

    /// The player is out of bounds or overlaps a pipe.
    pub open spec fn violation(self) -> bool {
        out_of_bounds(
            self.position_y,
            self.config.player_half_height as int,
            self.config.world_height as int,
        ) || any_hit(self.config, self.position_y, self.pipes)
    }

    /// One impulse: the velocity grows by the boost, without a clamp.
    pub open spec fn jump(self) -> World {
        World { velocity_y: self.velocity_y + self.config.jump_boost, ..self }
    }

    /// One tick: integrate the player, scroll and retire the pipes, then
    /// detect. A violation ends the session; one that is found when the
    /// session is already over changes nothing about the state.
    pub open spec fn step(self, dt: int) -> World {
        let moved = World {
            position_y: position_after(self.position_y, self.velocity_y, dt),
            velocity_y: velocity_after(self.velocity_y, self.gravity, dt),
            pipes: scrolled(self.config, self.pipes, self.config.pipe_speed * dt),
            ..self
        };
        World {
            state: if self.state == SessionState::GameOver || moved.violation() {
                SessionState::GameOver
            } else {
                SessionState::Active
            },
            ..moved
        }
    }

    /// One more pair, at the right edge of the world, under a fresh handle.
    pub open spec fn spawn_one(self) -> World {
        World {
            pipes: self.pipes.push(
                ObstaclePair { id: self.next_id as u64, center_x: self.config.spawn_x() as i64 },
            ),
            next_id: self.next_id + 1,
            ..self
        }
    }

    /// Replaces the pairs by a burst of `n` from `start` to `end`, under
    /// fresh handles.
    pub open spec fn spawn_initial(self, n: int, start: int, end: int) -> World {
        World {
            pipes: initial_pipes(start, end, n, self.next_id),
            next_id: self.next_id + n,
            ..self
        }
    }

    /// Back to the start of a session: the player at rest at the centre
    /// height, the old pairs gone, the initial burst in place, no score, the
    /// session active. Handles are not reused.
    pub open spec fn reset(self) -> World {
        World {
            position_y: 0,
            velocity_y: 0,
            score: 0,
            state: SessionState::Active,
            ..self.spawn_initial(
                self.config.spawn_count as int,
                self.config.pipe_start as int,
                self.config.spawn_x(),
            )
        }
    }

    /// The score grows by one.
    pub open spec fn increment(self) -> World {
        World { score: self.score + 1, ..self }
    }

    /// Whether some live pair has the handle `id`.
    pub open spec fn has_pair(self, id: u64) -> bool {
        exists|i: int| 0 <= i < self.pipes.len() && (#[trigger] self.pipes[i]).id == id
    }
}

/// A burst that ends at or left of the spawn edge, under handles that fit,
/// is in spawn order and within the bounds of the world that follows.
pub proof fn lemma_burst_wf(cfg: Config, n: int, start: int, end: int, first_id: int)
    requires
        cfg.valid(),
        n >= 0,
        burst_valid(n, start, end),
        fits(start),
        end <= cfg.spawn_x(),
        0 <= first_id,
        first_id + n <= u64::MAX,
    ensures
        ordered(initial_pipes(start, end, n, first_id)),
        bounded(initial_pipes(start, end, n, first_id), first_id + n, cfg.spawn_x()),
        forall|i: int|
            0 <= i < n ==> (#[trigger] initial_pipes(start, end, n, first_id)[i]).id == first_id + i
                && initial_pipes(start, end, n, first_id)[i].center_x == crate::pipes::initial_x(
                start,
                end,
                n,
                i,
            ),
{
    let burst = initial_pipes(start, end, n, first_id);
    assert forall|i: int| 0 <= i < n implies (#[trigger] burst[i]).id == first_id + i
        && burst[i].center_x == crate::pipes::initial_x(start, end, n, i) && burst[i].center_x
        <= cfg.spawn_x() by {
        crate::pipes::lemma_initial_x_range(start, end, n, i);
    }
    assert forall|i: int, j: int| 0 <= i < j < burst.len() implies (#[trigger] burst[i]).id < (
    #[trigger] burst[j]).id && burst[i].center_x <= burst[j].center_x by {
        crate::pipes::lemma_initial_x_monotone(start, end, n, i, j);
    }
}

/// A tick keeps the world well formed whenever the player stays within the
/// machine range.
pub proof fn lemma_step_wf(w: World, dt: int)
    requires
        w.wf(),
        dt >= 0,
        w.step(dt).representable(),
    ensures
        w.step(dt).wf(),
{
    let shift = w.config.pipe_speed * dt;
    assert(shift >= 0) by (nonlinear_arith)
        requires
            w.config.pipe_speed > 0,
            dt >= 0,
            shift == w.config.pipe_speed * dt,
    ;
    crate::pipes::lemma_scrolled_ordered(w.config, w.pipes, shift, w.next_id, w.config.spawn_x());
}

/// The simulation core. It owns the whole world; the host reads it through
/// the accessors and changes it only through the operations below.
#[derive(Debug)]
pub struct Simulation {
    config: Config,
    player: Player,
    pipes: Vec<ObstaclePair>,
    next_id: u64,
    score: u64,
    state: SessionState,
}

impl View for Simulation {
    type V = World;

    closed spec fn view(&self) -> World {
        World {
            config: self.config,
            position_y: self.player.position_y as int,
            velocity_y: self.player.velocity.0 as int,
            gravity: self.player.gravity.0 as int,
            pipes: self.pipes@,
            next_id: self.next_id as int,
            score: self.score as int,
            state: self.state,
        }
    }
}

impl Simulation {
    /// The invariant of the core.
    pub open spec fn wf(&self) -> bool {
        self@.wf()
    }

    /// Starts a session: the player at rest at the centre height and the
    /// initial burst in place. An ill-formed configuration is refused.
    pub fn new(config: Config) -> (r: Result<Simulation, SimError>)
        ensures
            !config.valid() ==> r.is_err() && r.unwrap_err() == SimError::InvalidArgument,
            config.valid() ==> r.is_ok() && r.unwrap()@ == World::initial(config) && r.unwrap().wf(),
    {
        if !config.is_valid() {
            return Err(SimError::InvalidArgument);
        }
        let edge = config.spawn_edge();
        proof {
            lemma_burst_wf(
                config,
                config.spawn_count as int,
                config.pipe_start as int,
                config.spawn_x(),
                0,
            );
        }
        match crate::pipes::spawn_pipes(config.spawn_count, config.pipe_start, edge, 0) {
            Ok(pipes) => Ok(
                Simulation {
                    config,
                    player: setup(&config),
                    pipes,
                    next_id: config.spawn_count as u64,
                    score: 0,
                    state: SessionState::Active,
                },
            ),
            Err(e) => Err(e),
        }
    }

    /// Registers one jump: the velocity grows by the boost at once, so the
    /// next tick already moves the player with it. Jumps add up.
    pub fn jump(&mut self) -> (r: Result<(), SimError>)
        requires
            old(self).wf(),
        ensures
            final(self).wf(),
            old(self)@.jump().representable() ==> r.is_ok() && final(self)@ == old(self)@.jump(),
            !old(self)@.jump().representable() ==> r == Err::<(), SimError>(SimError::Overflow)
                && final(self)@ == old(self)@,
    {
        match crate::kinematics::handle_input(self.player.velocity, self.config.jump_boost, true) {
            Ok(v) => {
                self.player.velocity = v;
                Ok(())
            },
            Err(e) => Err(e),
        }
    }

    /// Advances the world by one tick of length `dt` and returns the session
    /// state and the score. A negative `dt` is refused as an invalid argument;
    /// a tick that would carry the player out of the machine range is refused
    /// as an overflow. A refused tick changes nothing.
    pub fn step(&mut self, dt: i64) -> (r: Result<(SessionState, u64), SimError>)
        requires
            old(self).wf(),
        ensures
            final(self).wf(),
            dt < 0 ==> r == Err::<(SessionState, u64), SimError>(SimError::InvalidArgument)
                && final(self)@ == old(self)@,
            dt >= 0 && !old(self)@.step(dt as int).representable() ==> r == Err::<
                (SessionState, u64),
                SimError,
            >(SimError::Overflow) && final(self)@ == old(self)@,
            dt >= 0 && old(self)@.step(dt as int).representable() ==> final(self)@ == old(self)@.step(dt as int) && r == Ok::<(SessionState, u64), SimError>(
                (final(self)@.state, final(self)@.score as u64),
            ),
    {
        if dt < 0 {
            return Err(SimError::InvalidArgument);
        }
        let cfg = self.config;
        match crate::kinematics::gravity(
            self.player.position_y,
            self.player.velocity,
            self.player.gravity,
            dt,
        ) {
            Err(e) => Err(e),
            Ok((y, v)) => {
                proof {
                    lemma_step_wf(self@, dt as int);
                }
                let _ = crate::pipes::move_pipes(&cfg, &mut self.pipes, dt);
                self.player.position_y = y;
                self.player.velocity = v;
                let hit = crate::collision::check_out_of_bounds(
                    y,
                    cfg.player_half_height,
                    cfg.world_height,
                ) || crate::collision::detect_collisions(&cfg, y, &self.pipes);
                if hit {
                    self.state = SessionState::GameOver;
                }
                Ok((self.state, self.score))
            },
        }
    }

    /// Replaces the obstacle set by a burst of `n` pairs spread evenly from
    /// `start` to `end`. Refused as an invalid argument when the burst has
    /// exactly one pair, when the ends are out of order, or when `end` lies
    /// beyond the spawn edge; refused as an overflow when the handles run out.
    pub fn spawn_initial(&mut self, n: usize, start: i64, end: i64) -> (r: Result<(), SimError>)
        requires
            old(self).wf(),
        ensures
            final(self).wf(),
            !(burst_valid(n as int, start as int, end as int) && end <= old(self)@.config.spawn_x()) ==> r == Err::<(), SimError>(SimError::InvalidArgument) && final(self)@ == old(self)@,
            burst_valid(n as int, start as int, end as int) && end <= old(self)@.config.spawn_x()
                && old(self)@.next_id + n > u64::MAX ==> r == Err::<(), SimError>(
                SimError::Overflow,
            ) && final(self)@ == old(self)@,
            burst_valid(n as int, start as int, end as int) && end <= old(self)@.config.spawn_x()
                && old(self)@.next_id + n <= u64::MAX ==> r.is_ok() && final(self)@ == old(self)@.spawn_initial(n as int, start as int, end as int),
    {
        if end > self.config.spawn_edge() {
            return Err(SimError::InvalidArgument);
        }
        match crate::pipes::spawn_pipes(n, start, end, self.next_id) {
            Err(e) => Err(e),
            Ok(pipes) => {
                proof {
                    lemma_burst_wf(
                        self.config,
                        n as int,
                        start as int,
                        end as int,
                        self.next_id as int,
                    );
                }
                self.pipes = pipes;
                self.next_id = self.next_id + n as u64;
                Ok(())
            },
        }
    }

    /// Spawns one pair at the right edge and returns its handle. Refused as
    /// an overflow only when the handles have run out.
    pub fn spawn_one(&mut self) -> (r: Result<u64, SimError>)
        requires
            old(self).wf(),
        ensures
            final(self).wf(),
            old(self)@.next_id < u64::MAX ==> r == Ok::<u64, SimError>(old(self)@.next_id as u64)
                && final(self)@ == old(self)@.spawn_one(),
            old(self)@.next_id >= u64::MAX ==> r == Err::<u64, SimError>(SimError::Overflow)
                && final(self)@ == old(self)@,
    {
        if self.next_id == u64::MAX {
            return Err(SimError::Overflow);
        }
        let id = self.next_id;
        let cfg = self.config;
        crate::pipes::spawn_new_pipes(&cfg, &mut self.pipes, id);
        self.next_id = id + 1;
        Ok(id)
    }

    /// Returns the world to the start of a session. Refused as an overflow
    /// only when the handles have run out.
    pub fn reset(&mut self) -> (r: Result<(), SimError>)
        requires
            old(self).wf(),
        ensures
            final(self).wf(),
            old(self)@.next_id + old(self)@.config.spawn_count <= u64::MAX ==> r.is_ok() && final(self)@ == old(self)@.reset(),
            old(self)@.next_id + old(self)@.config.spawn_count > u64::MAX ==> r == Err::<
                (),
                SimError,
            >(SimError::Overflow) && final(self)@ == old(self)@,
    {
        let cfg = self.config;
        let edge = cfg.spawn_edge();
        match self.spawn_initial(cfg.spawn_count, cfg.pipe_start, edge) {
            Err(e) => Err(e),
            Ok(()) => {
                let fresh = setup(&cfg);
                self.player = fresh;
                self.score = 0;
                self.state = SessionState::Active;
                Ok(())
            },
        }
    }

    /// Adds one to the score, for the host to call on its own pass-detection
    /// policy. Refused as an overflow only at the largest score.
    pub fn increment(&mut self) -> (r: Result<u64, SimError>)
        requires
            old(self).wf(),
        ensures
            final(self).wf(),
            old(self)@.score < u64::MAX ==> r == Ok::<u64, SimError>(final(self)@.score as u64)
                && final(self)@ == old(self)@.increment(),
            old(self)@.score >= u64::MAX ==> r == Err::<u64, SimError>(SimError::Overflow)
                && final(self)@ == old(self)@,
    {
        if self.score == u64::MAX {
            return Err(SimError::Overflow);
        }
        self.score = self.score + 1;
        Ok(self.score)
    }

    /// The configuration the session was started with.
    pub fn config(&self) -> (c: Config)
        ensures
            c == self@.config,
    {
        self.config
    }

    /// The player as it is now.
    pub fn player(&self) -> (p: Player)
        ensures
            p.position_y == self@.position_y,
            p.velocity.0 == self@.velocity_y,
            p.gravity.0 == self@.gravity,
    {
        self.player
    }

    /// The player's vertical offset from the centre of the world.
    pub fn position_y(&self) -> (y: i64)
        ensures
            y == self@.position_y,
    {
        self.player.position_y
    }

    /// The player's vertical speed; positive is upward.
    pub fn velocity_y(&self) -> (v: i64)
        ensures
            v == self@.velocity_y,
    {
        self.player.velocity.0
    }

    /// The score of the running session.
    pub fn score(&self) -> (s: u64)
        ensures
            s == self@.score,
    {
        self.score
    }

    /// Whether the session is active or over.
    pub fn state(&self) -> (s: SessionState)
        ensures
            s == self@.state,
    {
        self.state
    }

    /// The number of live pairs.
    pub fn obstacle_count(&self) -> (n: usize)
        ensures
            n == self@.pipes.len(),
    {
        self.pipes.len()
    }

    /// The live pairs, oldest first.
    pub fn obstacles(&self) -> (all: Vec<ObstaclePair>)
        ensures
            all@ == self@.pipes,
    {
        let mut all: Vec<ObstaclePair> = Vec::new();
        let mut i: usize = 0;
        while i < self.pipes.len()
            invariant
                0 <= i <= self.pipes.len(),
                all@ == self.pipes@.subrange(0, i as int),
            decreases self.pipes.len() - i,
        {
            all.push(self.pipes[i]);
            proof {
                assert(all@ == self.pipes@.subrange(0, i + 1));
            }
            i += 1;
        }
        proof {
            assert(self.pipes@.subrange(0, i as int) == self.pipes@);
        }
        all
    }

    /// Looks up a live pair by its handle. The handle of a retired pair, or
    /// one that was never handed out, is refused as an invalid argument.
    pub fn obstacle(&self, id: u64) -> (r: Result<ObstaclePair, SimError>)
        requires
            self.wf(),
        ensures
            !self@.has_pair(id) ==> r == Err::<ObstaclePair, SimError>(SimError::InvalidArgument),
            self@.has_pair(id) ==> r.is_ok() && r.unwrap().id == id && self@.pipes.contains(
                r.unwrap(),
            ),
    {
        let mut i: usize = 0;
        while i < self.pipes.len()
            invariant
                0 <= i <= self.pipes.len(),
                forall|k: int| 0 <= k < i ==> (#[trigger] self.pipes@[k]).id != id,
            decreases self.pipes.len() - i,
        {
            if self.pipes[i].id == id {
                assert(self@.pipes[i as int].id == id);
                return Ok(self.pipes[i]);
            }
            i += 1;
        }
        Err(SimError::InvalidArgument)
    }
}

} // verus!
