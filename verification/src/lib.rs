//! Two-dimensional Ising lattice under single-spin-flip Metropolis dynamics.
//!
//! The lattice is a square torus of spins. Energy and magnetization are kept
//! as exact integer totals (energy in units of the coupling constant) and are
//! updated incrementally on every accepted flip. Acceptance probabilities and
//! uniform draws are fixed-point numbers with 53 fractional bits, so that
//! every decision of the engine is a statement about integers.

pub mod ising_threaded;
pub mod lattice;
pub mod laws;
pub mod random_generator;
pub mod sums;
pub mod types_def;
