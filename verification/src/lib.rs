//! Exact 2D polygon union ("sum") by pairwise boundary clipping.
//!
//! Coordinates are exact rational numbers with bounded numerator and
//! denominator, so every geometric predicate (intersection, containment,
//! orientation, winding) is decided exactly: parallel, collinear, vertical
//! and zero-length degeneracies are handled by explicit branches, never by
//! tolerances. Arithmetic that would leave the coordinate range is reported
//! as an explicit error instead of silently producing a wrong polygon.

use vstd::prelude::*;

pub mod bounds;
pub mod clip;
pub mod iter_from;
pub mod point;
pub mod polygon;
pub mod rat;
pub mod segment;
pub mod vector;

verus! {

/// Errors surfaced by polygon construction, clipping and assembly.
///
/// `TooFewPoints` reports bad input; `CoordinateOverflow` reports a machine
/// limit (an exact coordinate that does not fit the bounded rational range);
/// `UnclosedFragmentChain` reports a violated internal invariant (a fragment
/// bag that does not decompose into closed walks of at least three vertices).
#[derive(Clone, Copy, Debug, PartialEq, Eq, Structural)]
pub enum ClipError {
    TooFewPoints,
    CoordinateOverflow,
    UnclosedFragmentChain,
}

} // verus!
