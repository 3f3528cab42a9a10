//! A small fully-connected feed-forward network and the dense matrix
//! arithmetic beneath it, generic over the scalar that the cells hold.
//!
//! - [`scalar`]: the arithmetic asked of a cell, and the integers as one
//!   such scalar.
//! - [`chance`]: random draws.
//! - [`tools::grid`]: the mathematical model of a matrix, and its laws.
//! - [`tools::matrix`]: the matrix itself, with the tiled product.
//! - [`tools::activations`]: the activation functions and their slopes.
//! - [`nn`]: the network: forward pass, back-propagation, descent step and
//!   the mini-batch training loop.

pub mod chance;
pub mod nn;
pub mod scalar;
pub mod tools;
