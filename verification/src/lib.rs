//! A chunk-based granular-material simulator.
//!
//! Loose material (sand) moves pixel by pixel across a tiled world. One step
//! advances the dirty region of a chunk, reading and writing through the
//! chunk and its eight neighbours; a second mode applies the same pixel rule
//! to the grids carried by free rigid bodies.
//!
//! All quantities are integers. Probabilities and velocities are fixed-point
//! fractions, and light values are carried as bit patterns, so that every
//! rule can be stated and proved exactly.
//!
//! - [`material`], [`rect`], [`particle`]: the values that grids hold.
//! - [`rule`]: the move of one sand pixel, as a function of its surroundings
//!   and of random draws; [`random`]: where the draws come from.
//! - [`helper`]: the interface between the rule and a grid.
//! - [`chunk`], [`scan`]: nine chunks addressed as one grid, and what a step
//!   over them does.
//! - [`world`], [`rigidbody`], [`pass`]: the world as a rigid body sees it,
//!   and what a pass over the bodies does.
//! - [`simulator`]: the two steps themselves.
//! - [`laws`], [`symmetry`], [`body_laws`]: what holds of every step.
//! - [`template`], [`ecs`]: structure templates and scene markers.

pub mod material;
pub mod rect;
pub mod particle;
pub mod rule;
pub mod random;
pub mod helper;
pub mod chunk;
pub mod scan;
pub mod world;
pub mod rigidbody;
pub mod pass;
pub mod simulator;
pub mod laws;
pub mod symmetry;
pub mod body_laws;
pub mod template;
pub mod ecs;
