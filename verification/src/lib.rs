//! Simulation core of a tile-grid farming sandbox: a deterministic per-day
//! update of soil moisture and crop organisms on a fixed 32x32 grid.
//!
//! All quantities are fixed-point integers: one whole unit of moisture,
//! health, growth or trait value is `units::SCALE` steps. Every operation is
//! exact integer arithmetic, so a fixed starting state and seed reproduce the
//! same grids bit for bit.

pub mod units;
pub mod grid_sum;
pub mod rng;
pub mod water;
pub mod crop;
pub mod laws;
