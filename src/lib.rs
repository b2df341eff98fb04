//! Black-Scholes pricing over batches of eight option scenarios.
//!
//! The library holds the parts of the engine that decide rather than
//! compute: which formula variant a direction selects, and when a
//! lane-parallel Newton-Raphson solver stops.
pub mod direction;
pub mod solver;
