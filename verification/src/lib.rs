//! A deterministic, tick-driven core for a side-scrolling "flap to stay
//! airborne" game: gravity integration, obstacle scrolling and spawning,
//! bounds and collision detection, and the session life cycle.
//!
//! Every quantity is a whole number in fixed-point units chosen by the host:
//! lengths in length units, time in time units, velocities in length units per
//! time unit and accelerations in velocity units per time unit. All arithmetic
//! is exact; an operation whose exact result would leave the machine range is
//! refused and leaves the world untouched.

pub mod config;
pub mod kinematics;
pub mod pipes;
pub mod collision;
pub mod session;
pub mod laws;
