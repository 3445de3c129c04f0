//! State and bookkeeping of a classical N-body simulator.
//!
//! The numeric scalar is a type parameter: the per-particle layout, the
//! dimension invariant, the order in which pairwise interactions are visited,
//! the phase order of a velocity-Verlet step and the input file layout are
//! verified here independently of the floating-point arithmetic.

pub mod particle;
pub mod grid;
pub mod input;
pub mod simulation;
