//! Products of lattice vectors, computed by glam's integer vectors.

use vstd::prelude::*;
use crate::space::{dot, length_squared, Point};

verus! {

/// Whether the dot product of two lattice vectors can be computed in `i64`.
pub open spec fn dot_fits(a: Point, b: Point) -> bool {
    &&& i64::MIN <= a.x * b.x <= i64::MAX
    &&& i64::MIN <= a.z * b.z <= i64::MAX
    &&& i64::MIN <= a.x * b.x + a.z * b.z <= i64::MAX
}

/// `glam::I64Vec2::dot` of the two vectors: the products of their components,
/// added. glam multiplies and adds in `i64`, so the products and their sum have
/// to fit.
#[verifier::external_body]
pub(crate) fn dot_product(a: Point, b: Point) -> (out: i64)
    requires
        dot_fits(a, b),
    ensures
        out == dot(a@, b@),
{
    glam::I64Vec2::new(a.x, a.z).dot(glam::I64Vec2::new(b.x, b.z))
}

/// `glam::I64Vec2::length_squared` of the vector: its dot product with itself,
/// computed in `i64`.
#[verifier::external_body]
pub(crate) fn squared_length(a: Point) -> (out: i64)
    requires
        dot_fits(a, a),
    ensures
        out == length_squared(a@),
{
    glam::I64Vec2::new(a.x, a.z).length_squared()
}

} // verus!
