//! Authoritative simulation core of a small multiplayer arena shooter.
//!
//! The engine owns the whole world state (live players, in-flight bullets,
//! corpses awaiting respawn, the scoreboard and per-player survival clocks),
//! applies player commands, and advances the world one fixed tick at a time.
//! Geometry is carried in fixed-point integers: coordinates and radii are
//! milli-units, headings are unit vectors scaled by a fixed factor, and time
//! is simulation milliseconds, so every rule of the game is provable exactly.

use vstd::prelude::*;

pub mod api;
pub mod game;
pub mod laws;
pub mod geom;
pub mod rng;
pub mod steps;
pub mod tables;
pub mod models;

verus! {

/// Clamps `v` into the closed interval `[lo, hi]`.
pub open spec fn spec_clamp(v: int, lo: int, hi: int) -> int {
    if v < lo {
        lo
    } else if v > hi {
        hi
    } else {
        v
    }
}

/// Exec counterpart of `spec_clamp`.
pub fn clamp_i64(v: i64, lo: i64, hi: i64) -> (r: i64)
    requires
        lo <= hi,
    ensures
        r as int == spec_clamp(v as int, lo as int, hi as int),
{
    if v < lo {
        lo
    } else if v > hi {
        hi
    } else {
        v
    }
}

} // verus!
