//! Rules engine of a four-player cross-shaped board game.
//!
//! The engine owns the 15x15 board topology, the tokens and their
//! positions, movement legality, capture resolution and win tracking.
//! Rendering, player input and dice randomness live outside the engine;
//! it consumes a dice roll as a plain integer.

pub mod rang;
pub mod cell;
pub mod goti;
pub mod geometry;
pub mod engine;
pub mod laws;
