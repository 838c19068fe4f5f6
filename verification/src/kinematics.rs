//! The kinematics integrator: explicit Euler steps under constant gravity, and
//! one-shot velocity impulses.

use vstd::prelude::*;
use crate::config::SimError;
use crate::config::DEFAULT_GRAVITY;

verus! {

/// Vertical speed of the player; positive is upward.
#[derive(Clone, Copy, Debug, PartialEq, Eq, Structural)]
pub struct Velocity(pub i64);

/// Constant vertical acceleration of the player; negative is downward.
#[derive(Clone, Copy, Debug, PartialEq, Eq, Structural)]
pub struct Gravity(pub i64);

impl Default for Gravity {
    fn default() -> (g: Gravity)
        ensures
            g == Gravity(DEFAULT_GRAVITY),
    {
        Gravity(DEFAULT_GRAVITY)
    }
}

impl Default for Velocity {
    fn default() -> (v: Velocity)
        ensures
            v == Velocity(0),
    {
        Velocity(0)
    }
}

/// Position after a tick of length `dt`: the velocity *before* the tick
/// carries the player for the whole tick.
pub open spec fn position_after(position_y: int, velocity_y: int, dt: int) -> int {
    position_y + velocity_y * dt
}

/// Velocity after a tick of length `dt` under acceleration `gravity`.
pub open spec fn velocity_after(velocity_y: int, gravity: int, dt: int) -> int {
    velocity_y + gravity * dt
}

/// Whether a mathematical integer is a machine value.
pub open spec fn fits(x: int) -> bool {
    i64::MIN <= x <= i64::MAX
}

/// `a + b * c`, exactly, or `None` when that leaves the machine range.
pub fn mul_add(a: i64, b: i64, c: i64) -> (r: Option<i64>)
    ensures
        fits(a + b * c) ==> r == Some((a + b * c) as i64),
        !fits(a + b * c) ==> r.is_none(),
{
    let wide_b: i128 = b as i128;
    let wide_c: i128 = c as i128;
    assert(-0x4000_0000_0000_0000_0000_0000_0000_0000 <= wide_b * wide_c
        <= 0x4000_0000_0000_0000_0000_0000_0000_0000) by (nonlinear_arith)
        requires
            -0x8000_0000_0000_0000 <= wide_b <= 0x8000_0000_0000_0000,
            -0x8000_0000_0000_0000 <= wide_c <= 0x8000_0000_0000_0000,
    ;
    let wide: i128 = a as i128 + wide_b * wide_c;
    if wide < i64::MIN as i128 || wide > i64::MAX as i128 {
        None
    } else {
        Some(wide as i64)
    }
}

/// Advances the player by one tick: the position moves by the old velocity
/// times `dt`, then the velocity changes by `pull` times `dt`. Returns the new
/// position and velocity. A negative `dt` is refused as an invalid argument; a
/// result outside the machine range is refused as an overflow.
pub fn gravity(position_y: i64, velocity: Velocity, pull: Gravity, dt: i64) -> (r: Result<
    (i64, Velocity),
    SimError,
>)
    ensures
        dt < 0 ==> r == Err::<(i64, Velocity), SimError>(SimError::InvalidArgument),
        dt >= 0 && fits(position_after(position_y as int, velocity.0 as int, dt as int)) && fits(
            velocity_after(velocity.0 as int, pull.0 as int, dt as int),
        ) ==> r == Ok::<(i64, Velocity), SimError>(
            (
                position_after(position_y as int, velocity.0 as int, dt as int) as i64,
                Velocity(velocity_after(velocity.0 as int, pull.0 as int, dt as int) as i64),
            ),
        ),
        dt >= 0 && !(fits(position_after(position_y as int, velocity.0 as int, dt as int)) && fits(
            velocity_after(velocity.0 as int, pull.0 as int, dt as int),
        )) ==> r == Err::<(i64, Velocity), SimError>(SimError::Overflow),
{
    if dt < 0 {
        return Err(SimError::InvalidArgument);
    }
    match (mul_add(position_y, velocity.0, dt), mul_add(velocity.0, pull.0, dt)) {
        (Some(y), Some(v)) => Ok((y, Velocity(v))),
        _ => Err(SimError::Overflow),
    }
}

/// Applies the jump impulse on a fresh key press: the velocity grows by
/// `boost`, with no upper clamp. Without a press the velocity is returned
/// as it is.
pub fn handle_input(velocity: Velocity, boost: i64, just_pressed: bool) -> (r: Result<
    Velocity,
    SimError,
>)
    ensures
        !just_pressed ==> r == Ok::<Velocity, SimError>(velocity),
        just_pressed && fits(velocity.0 + boost) ==> r == Ok::<Velocity, SimError>(
            Velocity((velocity.0 + boost) as i64),
        ),
        just_pressed && !fits(velocity.0 + boost) ==> r == Err::<Velocity, SimError>(
            SimError::Overflow,
        ),
{
    if !just_pressed {
        return Ok(velocity);
    }
    match velocity.0.checked_add(boost) {
        Some(v) => Ok(Velocity(v)),
        None => Err(SimError::Overflow),
    }
}

} // verus!
