//! A two-dimensional lattice-gas cellular automaton on an offset hexagonal
//! grid: six-direction adjacency, binary per-direction particle occupancy,
//! and a synchronous two-phase update (streaming with wall bounce-back,
//! then pattern-based collision scattering with an injectable tie-breaker).

pub mod dir;
pub mod vel;
pub mod grid;
pub mod engine;
pub mod laws;
pub mod rng;
