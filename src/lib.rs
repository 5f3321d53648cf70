//! Server-side simulation core of a grow-by-absorption arena game.
//!
//! Positions are fixed-point integers: one world unit is `SCALE` position
//! units, so overlap and mass-ratio tests are exact integer comparisons.
//!
//! - `math`: the integer square root and its specification.
//! - `tables`: the rows of the store and its invariants.
//! - `physics`: radius, speed curve, movement and the overlap test.
//! - `collision`: the movement tick and absorption, with mass conservation.
//! - `rng`: the random source's draws.
//! - `food`: the food population controller.
//! - `session`: world setup, connect, disconnect, entering the game, input.
//! - `rows`: table scans and the circles-by-player index.
//! - `laws`: properties that relate several steps of the simulation.

pub mod math;
pub mod tables;
pub mod physics;
pub mod collision;
pub mod rng;
pub mod food;
pub mod session;
pub mod rows;
pub mod laws;
