//! Radiance of one pixel for a scene of implicit surfaces (signed distance
//! fields, found by sphere marching) and explicit surfaces (exact ray
//! intersection), shaded by a recursive stochastic integrator.
//!
//! All quantities are saturating fixed-point integers (see `fixed`), so the
//! solvers and the blend of the integrator carry exact contracts.

pub mod fixed;
pub mod geom;
pub mod objects;
pub mod solver;
pub mod shade;
pub mod camera;
pub mod laws;
