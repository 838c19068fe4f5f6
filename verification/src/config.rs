//! Configuration of a session and the error signals of the core.

use vstd::prelude::*;

verus! {

/// Why an operation was refused. A refused operation changes nothing.
#[derive(Clone, Copy, Debug, PartialEq, Eq, Structural)]
pub enum SimError {
    /// The host passed a malformed argument: a negative time step, a handle
    /// of no live obstacle pair, or an ill-formed configuration.
    InvalidArgument,
    /// The exact result does not fit the machine range.
    Overflow,
}

/// Largest magnitude that a configured quantity may have.
pub const LIMIT: i64 = 1_000_000_000_000;

/// Width of the classic world, in millionths of a world unit.
pub const MAX_WIDTH: i64 = 640_000_000;

/// Height of the classic world, in millionths of a world unit.
pub const MAX_HEIGHT: i64 = 360_000_000;

/// Classic gravity: a quarter of the world height per second squared,
/// downward, in millionths of a world unit per millisecond squared.
pub const DEFAULT_GRAVITY: i64 = -90;

/// Classic jump impulse: an eighth of the world height per second, in
/// millionths of a world unit per millisecond.
pub const VELOCITY_BOOST: i64 = 45_000;

/// Half the height of the classic player; also the radius of its collider.
pub const PLAYER_HALF_HEIGHT: i64 = 25_000_000;

/// Half the width of the classic player.
pub const PLAYER_HALF_WIDTH: i64 = 50_000_000;

/// The player sits a quarter of the world width left of the centre.
pub const PLAYER_X_POS: i64 = -160_000_000;

/// Centre of the leftmost pair of the initial burst: a sixth of the world
/// width left of the centre, rounded toward the centre.
pub const PIPE_START: i64 = -106_666_666;

/// Number of pairs in the classic initial burst.
pub const NUM_PIPES: usize = 3;

/// Half the width of a classic pipe.
pub const PIPE_HALF_WIDTH: i64 = 50_000_000;

/// Vertical opening between the two pipes of a classic pair.
pub const PIPE_GAP: i64 = 150_000_000;

/// Classic scroll speed, in millionths of a world unit per millisecond.
pub const PIPE_SPEED: i64 = 100_000;

/// Classic spawn period in milliseconds: the time a pipe needs to cross the
/// world, divided by the size of the initial burst, rounded down.
pub const PIPE_SPAWN_PERIOD: i64 = 2_133;

/// The named constants of one session. They never change while it runs.
#[derive(Clone, Copy, Debug, PartialEq, Eq, Structural)]
pub struct Config {
    pub world_width: i64,
    pub world_height: i64,
    /// Constant downward acceleration; negative.
    pub gravity: i64,
    /// Velocity added by one jump; positive.
    pub jump_boost: i64,
    /// Vertical opening between the two pipes of a pair.
    pub pipe_gap: i64,
    /// Leftward scroll speed of the pipes; positive.
    pub pipe_speed: i64,
    pub pipe_half_width: i64,
    /// Number of pairs in the initial burst.
    pub spawn_count: usize,
    pub player_half_height: i64,
    pub player_half_width: i64,
    /// Fixed horizontal position of the player.
    pub player_x: i64,
    /// Centre of the leftmost pair of the initial burst.
    pub pipe_start: i64,
}

impl Config {
    /// Where a freshly spawned pair is centred: just beyond the right edge of
    /// the world, so that its leading edge touches the boundary.
    pub open spec fn spawn_x(&self) -> int {
        self.world_width / 2 + self.pipe_half_width
    }

    /// Height of one pipe: the world height less the gap.
    pub open spec fn pipe_height(&self) -> int {
        self.world_height - self.pipe_gap
    }

    /// A configuration the core accepts: signs as the physics needs them,
    /// a player that fits the world, an initial burst that is either empty or
    /// has two ends, and every magnitude within `LIMIT`.
    pub open spec fn valid(&self) -> bool {
        &&& 0 < self.world_width <= LIMIT
        &&& 0 < self.world_height <= LIMIT
        &&& -LIMIT <= self.gravity < 0
        &&& 0 < self.jump_boost <= LIMIT
        &&& 0 <= self.pipe_gap <= self.world_height
        &&& 0 < self.pipe_speed <= LIMIT
        &&& 0 < self.pipe_half_width <= LIMIT
        &&& self.spawn_count != 1
        &&& self.spawn_count <= LIMIT
        &&& 0 < self.player_half_height
        &&& 2 * self.player_half_height <= self.world_height
        &&& 0 < self.player_half_width <= LIMIT
        &&& -LIMIT <= self.player_x <= LIMIT
        &&& -LIMIT <= self.pipe_start <= self.spawn_x()
    }

    /// The spawn period in time units: the time a pipe needs to cross the
    /// world, divided by the size of the initial burst (rounded down).
    pub open spec fn period(&self) -> int {
        self.world_width as int / (self.pipe_speed * self.spawn_count)
    }

    /// The classic 640 by 360 world, in millionths of a world unit and
    /// milliseconds.
    pub fn classic() -> (c: Config)
        ensures
            c.valid(),
            c == (Config {
                world_width: MAX_WIDTH,
                world_height: MAX_HEIGHT,
                gravity: DEFAULT_GRAVITY,
                jump_boost: VELOCITY_BOOST,
                pipe_gap: PIPE_GAP,
                pipe_speed: PIPE_SPEED,
                pipe_half_width: PIPE_HALF_WIDTH,
                spawn_count: NUM_PIPES,
                player_half_height: PLAYER_HALF_HEIGHT,
                player_half_width: PLAYER_HALF_WIDTH,
                player_x: PLAYER_X_POS,
                pipe_start: PIPE_START,
            }),
    {
        Config {
            world_width: MAX_WIDTH,
            world_height: MAX_HEIGHT,
            gravity: DEFAULT_GRAVITY,
            jump_boost: VELOCITY_BOOST,
            pipe_gap: PIPE_GAP,
            pipe_speed: PIPE_SPEED,
            pipe_half_width: PIPE_HALF_WIDTH,
            spawn_count: NUM_PIPES,
            player_half_height: PLAYER_HALF_HEIGHT,
            player_half_width: PLAYER_HALF_WIDTH,
            player_x: PLAYER_X_POS,
            pipe_start: PIPE_START,
        }
    }

    /// Decides `valid`.
    pub fn is_valid(&self) -> (ok: bool)
        ensures
            ok == self.valid(),
    {
        0 < self.world_width && self.world_width <= LIMIT
            && 0 < self.world_height && self.world_height <= LIMIT
            && -LIMIT <= self.gravity && self.gravity < 0
            && 0 < self.jump_boost && self.jump_boost <= LIMIT
            && 0 <= self.pipe_gap && self.pipe_gap <= self.world_height
            && 0 < self.pipe_speed && self.pipe_speed <= LIMIT
            && 0 < self.pipe_half_width && self.pipe_half_width <= LIMIT
            && self.spawn_count != 1
            && self.spawn_count as u64 <= 1_000_000_000_000u64
            && 0 < self.player_half_height && self.player_half_height <= LIMIT
            && 2 * self.player_half_height <= self.world_height
            && 0 < self.player_half_width && self.player_half_width <= LIMIT
            && -LIMIT <= self.player_x && self.player_x <= LIMIT
            && -LIMIT <= self.pipe_start
            && self.pipe_start <= self.world_width / 2 + self.pipe_half_width
    }

    /// The centre of a freshly spawned pair.
    pub fn spawn_edge(&self) -> (x: i64)
        requires
            self.valid(),
        ensures
            x == self.spawn_x(),
    {
        self.world_width / 2 + self.pipe_half_width
    }

    /// The interval at which the host should call for one more pair, chosen
    /// so that the cadence matches the spacing of the initial burst. Refused
    /// exactly when the burst is empty, since no cadence follows from it.
    pub fn spawn_period(&self) -> (r: Result<i64, SimError>)
        requires
            self.valid(),
        ensures
            self.spawn_count == 0 ==> r == Err::<i64, SimError>(SimError::InvalidArgument),
            self.spawn_count > 0 ==> r == Ok::<i64, SimError>(self.period() as i64),
            self.spawn_count > 0 ==> 0 <= self.period() <= LIMIT,
    {
        if self.spawn_count == 0 {
            return Err(SimError::InvalidArgument);
        }
        let speed: i128 = self.pipe_speed as i128;
        let count: i128 = self.spawn_count as i128;
        assert(0 < speed * count <= 1_000_000_000_000 * 1_000_000_000_000) by (nonlinear_arith)
            requires
                0 < speed <= 1_000_000_000_000,
                0 < count <= 1_000_000_000_000,
        ;
        let divisor: i128 = speed * count;
        let width: i128 = self.world_width as i128;
        assert(0 <= width / divisor <= width) by (nonlinear_arith)
            requires
                0 < width,
                0 < divisor,
        ;
        Ok((width / divisor) as i64)
    }
}

} // verus!
