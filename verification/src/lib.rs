//! An agent-based ecology simulation on a toroidal plane.
//!
//! Organisms (plants, prey, predators, scavengers) move, feed, age,
//! reproduce and decay under a fixed per-tick system order: environment,
//! movement, feeding, lifecycle, statistics. Structural changes within a
//! pass take effect at its end, and each pass reads the snapshot its
//! predecessor left, so entities react to the previous state.
//!
//! All continuous quantities are fixed-point integers: spatial and energy
//! values carry three fractional decimal digits (a value of 1000 is one
//! unit), and time is in microseconds.

pub mod config;
pub mod environment;
pub mod fixed;
pub mod geom;
pub mod interaction;
pub mod lifecycle;
pub mod movement;
pub mod organism;
pub mod rng;
pub mod setup;
pub mod stats;
pub mod world;
