//! A terminal "falling symbols" animation engine.
//!
//! The library owns the simulation and rendering logic: a grid of cells
//! (`Rune`: symbol index plus packed 24-bit colour), a stochastic per-cell
//! aging engine, a population of falling streaks (`Line`) painted over the
//! grid, and a frame differ that turns two grids into a minimal stream of
//! ANSI escape sequences.  Terminal I/O, signal handling and argument
//! parsing live outside the library and talk to it through plain values.
use vstd::prelude::*;

pub mod ambient;
pub mod color;
pub mod config;
pub mod control;
pub mod entropy;
pub mod line;
pub mod rain;
pub mod render;
pub mod rune;

pub use entropy::current_time_millis;
pub use entropy::random_item;

verus! {

/// Clamp `value` into the interval bounded by `min_value` below and
/// `max_value` above, the lower bound winning when the interval is empty.
pub fn clamp(value: i32, min_value: i32, max_value: i32) -> (r: i32)
    ensures
        r == vstd::math::max(vstd::math::min(value as int, max_value as int), min_value as int),
{
    let low: i32 = if value < max_value {
        value
    } else {
        max_value
    };
    if low < min_value {
        min_value
    } else {
        low
    }
}

/// Clamp `value` into `[0, len]`, the lower bound winning when `len < 0`.
pub fn clamp_min_zero(value: i32, len: i32) -> (r: i32)
    ensures
        r == vstd::math::max(vstd::math::min(value as int, len as int), 0),
{
    clamp(value, 0, len)
}

} // verus!
