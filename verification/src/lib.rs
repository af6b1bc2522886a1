//! Verified core of a 2D gradient-noise evaluator.
//!
//! The noise field is a pure function of a sample coordinate and two
//! immutable tables: a 256-entry permutation table and a table of unit
//! gradient directions. This crate verifies the integer core that the
//! evaluators are built on: the table invariants and the lattice hash
//! that maps integer lattice coordinates to gradient indices. The
//! floating-point blending around that core lives with the renderer.

pub mod hash;
pub mod tables;
