//! Seedable simplex noise: the integer side of the lattice.
//!
//! The permutation table, the lattice hashing, the choice of corners and of
//! gradients, and the row-major layout of noise maps.

pub mod grid;
pub mod lattice;
pub mod table;
