//! The two operations on plane vectors that the combat rules need. Both run
//! in the engine's math library on single-precision coordinates, so their
//! results are named here, not computed.

use bevy::math::Vec2;
use std::ops::Sub;
use vstd::prelude::*;

verus! {

/// What `Vec2`'s subtraction returns for `a - b`: the vector whose
/// coordinates are the differences of the coordinates.
pub uninterp spec fn vec2_difference(a: Vec2, b: Vec2) -> Vec2;

/// What `Vec2::normalize_or_zero` returns for `v`: `v` scaled to length one,
/// or the zero vector where `v` is zero, nearly zero or not finite.
pub uninterp spec fn vec2_unit_or_zero(v: Vec2) -> Vec2;

/// The direction in which `to` lies, seen from `from`.
pub open spec fn direction(from: Vec2, to: Vec2) -> Vec2 {
    vec2_unit_or_zero(vec2_difference(to, from))
}

/// `Vec2`'s `Sub::sub`, which subtracts coordinate by coordinate.
#[verifier::external_body]
pub(crate) fn difference(a: Vec2, b: Vec2) -> (d: Vec2)
    ensures
        d == vec2_difference(a, b),
{
    a.sub(b)
}

/// `Vec2::normalize_or_zero`. It reads nothing but the vector.
pub assume_specification[ Vec2::normalize_or_zero ](v: Vec2) -> (unit: Vec2)
    ensures
        unit == vec2_unit_or_zero(v),
;

/// The direction in which `to` lies, seen from `from`: of length one, or
/// zero where the two coincide.
pub fn direction_to(from: Vec2, to: Vec2) -> (d: Vec2)
    ensures
        d == direction(from, to),
{
    difference(to, from).normalize_or_zero()
}

} // verus!
