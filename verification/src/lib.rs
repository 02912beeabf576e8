//! An evolution simulator: animals on a toroidal plane sense food through a
//! discretized directional eye, steer with a small feedforward neural network,
//! and evolve across generations with a genetic algorithm whose chromosomes
//! are the networks' parameter vectors.
//!
//! Every real-valued quantity is a fixed-point scalar: an `i64` holding
//! millionths (see the `fx` module), so all behaviour is exact integer
//! arithmetic and carries machine-checked contracts.

pub mod animal;
pub mod animal_individual;
pub mod brain;
pub mod chromosome;
pub mod config;
pub mod eye;
pub mod food;
pub mod fx;
pub mod ga;
pub mod geom;
pub mod nn;
pub mod rng;
pub mod sim;
pub mod world;
