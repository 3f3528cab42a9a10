//! The numeric tools the network is built on.

pub mod activations;
pub mod grid;
pub mod matrix;
