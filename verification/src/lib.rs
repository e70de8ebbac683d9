//! A rigid-particle physics core: particle state advanced by semi-implicit
//! Euler integration under accumulated forces, with force generators
//! (gravity, drag, springs, bungees) and a registry that wires generators to
//! particles each simulation step.
//!
//! Scalars are deterministic fixed-point values (see [`precision`]), so every
//! arithmetic step has an exact, machine-checked contract.

pub mod ballistic;
pub mod math;
pub mod particle;
pub mod pfgen;
pub mod timing;
pub mod vec2;
pub mod precision;
pub mod vec3;
