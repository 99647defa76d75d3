//! Procedural terrain generation: plate-driven elevation, a climate pass,
//! biome classification, and hydrologically routed rivers over a rectangular
//! grid of cells.
//!
//! All quantities are fixed-point integers in thousandths, so every stage is
//! a deterministic function of the grid dimensions and the seed.
#![verifier::loop_isolation(false)]

pub mod biomes;
pub mod climate;
pub mod model;
pub mod noise;
pub mod plates;
pub mod rivers;
pub mod rng;
pub mod terrain;
