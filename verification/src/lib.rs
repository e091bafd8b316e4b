//! A stable-fluids solver on a fixed two-dimensional grid, with emitters that
//! feed coloured density and momentum into it.
//!
//! A [`Fluid`] holds three density channels and a velocity field, one value
//! per cell, and a list of [`Emitter`]s. Each call of `step` turns the
//! emitters, lets them inject, diffuses and projects the velocity, advects
//! it through itself, projects it again, and then advects and decays the
//! densities. The outermost ring of cells is an open boundary that only
//! injection and the final decay write to.
//!
//! The solver is written once for every number type that implements
//! [`Scalar`], and each routine's contract names the exact value it leaves in
//! every cell in terms of that type's operations. [`Fixed`] is a number type
//! with exact, saturating arithmetic on which more is proved: see [`laws`].

pub mod advect;
pub mod emitter;
pub mod field;
pub mod fixed;
pub mod fluid;
pub mod grid;
pub mod interact;
pub mod laws;
pub mod project;
pub mod random;
pub mod relax;
pub mod scalar;

pub use emitter::{Color, Emitter};
pub use fixed::Fixed;
pub use fluid::Fluid;
pub use scalar::Scalar;
