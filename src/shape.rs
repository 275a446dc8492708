//! Outlines that a planar patch can take inside its parallelogram.
use vstd::prelude::*;

verus! {

/// The part of the plane spanned by a patch's two edge vectors that the patch covers,
/// in the planar coordinates `(alpha, beta)` of a point: the unit square
/// (`0 <= alpha, beta <= 1`), the unit disk (`alpha^2 + beta^2 < 1`), or the triangle
/// `alpha > 0, beta > 0, alpha + beta < 1`.
#[derive(Clone, Copy, Debug, PartialEq, Eq, Structural)]
pub enum Shape {
    Square,
    Ellipsis,
    Triangle,
}

} // verus!
