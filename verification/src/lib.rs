//! Composable height fields over the unit square, a Laplace boundary-value
//! solver, and a box-topology mesh builder, all computing on an exact
//! fixed-point scalar so that every evaluation step can be verified.

use vstd::prelude::*;

pub mod approx;
pub mod combine;
pub mod csg1d;
pub mod csg2d;
pub mod fixed;
pub mod height1d;
pub mod heights;
pub mod geom;
pub mod laplace;
pub mod mesh;
pub mod polynomial;
pub mod polylines;
pub mod preview;
pub mod slicer;
pub mod surfaces;
pub mod xforms1d;

verus! {

/// A configuration that can never evaluate: rejected when a component is
/// built, never during evaluation (evaluation itself is total).
#[derive(Clone, Copy, PartialEq, Eq, Structural, Debug)]
pub enum ConfigError {
    /// A primitive name that the cross-section catalogue does not know.
    UnknownPrimitive,
    /// A quadrature resolution of zero, which would divide by zero.
    ZeroResolution,
    /// A mesh grid with fewer than two samples along some axis.
    DegenerateGrid,
}

} // verus!
