//! Phase-control core of an AC dimmer: trapezoidal fuzzy membership, a
//! singleton-rule inference engine that turns a sensor reading into a firing
//! angle, the zero-cross record shared with the edge interrupt, and the state
//! machine that times the output pulse after each zero crossing.
pub mod membership;
pub mod inference;
pub mod zero_cross;
pub mod firing;
