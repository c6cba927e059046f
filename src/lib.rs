//! Numerical core of a two-dimensional Eulerian flow sampler: a staggered
//! (MAC) grid with one ghost layer, the index stencils of the interpolation
//! strategies, and the semi-Lagrangian advection sweep that rebuilds a grid
//! from values sampled on the previous one.
//!
//! Sample values are generic: the library fixes where every value lives and
//! which values are combined, while the arithmetic on them is supplied by the
//! caller.

pub mod clock;
pub mod grid;
pub mod interpolation;
pub mod layout;
pub mod simulator;
