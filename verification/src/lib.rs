//! A molecular-dynamics engine for point particles under a truncated
//! Lennard-Jones potential, advanced by leapfrog steps in a periodic box.
//!
//! The engine is written over an abstract [`scalar::Scalar`]: every contract
//! states which scalar operations are applied, to which operands and in which
//! order, so a result is pinned down to the last rounding of whatever number
//! type carries the simulation. [`model`] holds the simulation as
//! mathematical values, [`job`] the executable engine and its builder, and
//! [`laws`] what follows where the scalar arithmetic is exact.

pub mod scalar;
pub mod integer;
pub mod vector;
pub mod prop;
pub mod model;
pub mod lattice;
pub mod job;
pub mod laws;
