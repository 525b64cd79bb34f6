//! A particle swarm optimiser over fixed-point numbers.
//!
//! A swarm of nodes moves through a search space of a fixed dimension. Each node
//! carries a caller-defined particle that scores positions and may repair them;
//! the swarm remembers the best score that any node has reported. Every real
//! quantity (coordinate, velocity, coefficient, score) is an `i64` that counts
//! billionths, see [`fixed`].
pub mod basic;
pub mod error;
pub mod fixed;
pub mod motion;
pub mod sampling;
pub mod traits;
