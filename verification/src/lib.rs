//! Simulation core of a tower-defence round, on integer quantities.
//!
//! Every real-valued quantity (a coordinate, a speed, a health value) is held
//! as a whole number of thousandths; every instant and every span of time is a
//! whole number of nanoseconds on the simulation clock. The smoothing alone,
//! whose steps are small, holds its values in billionths.

pub mod audio;
pub mod entity;
pub mod fx;
pub mod geometry;
pub mod level;
pub mod pipeline;
pub mod projectile;
pub mod spline;
pub mod tower;
pub mod unit;
pub mod utils;
