//! Interpolation between numbers and between points.

use vstd::prelude::*;
use crate::components::Vec2;
use crate::scalar::Scalar;

verus! {

/// `a + f * (b - a)`.
pub open spec fn lerp_spec<S: Scalar>(a: S, b: S, f: S) -> S {
    a.plus_spec(f.times_spec(b.minus_spec(a)))
}

/// The point between `p1` and `p2` at the fraction `f` of the way, each
/// coordinate interpolated by itself.
pub open spec fn move_to_point_spec<S: Scalar>(p1: Vec2<S>, p2: Vec2<S>, f: S) -> Vec2<S> {
    Vec2 { x: lerp_spec(p1.x, p2.x, f), y: lerp_spec(p1.y, p2.y, f) }
}

/// Linear interpolation from `a` towards `b` by the fraction `f`: `a` at
/// zero, `b` at one, and beyond either for a fraction outside that range.
pub fn lerp<S: Scalar>(a: S, b: S, f: S) -> (r: S)
    ensures
        r == lerp_spec(a, b, f),
{
    a.plus(f.times(b.minus(a)))
}

/// The point at the fraction `f` of the way from `p1` to `p2`.
pub fn move_to_point<S: Scalar>(p1: Vec2<S>, p2: Vec2<S>, f: S) -> (r: Vec2<S>)
    ensures
        r == move_to_point_spec(p1, p2, f),
{
    Vec2 { x: lerp(p1.x, p2.x, f), y: lerp(p1.y, p2.y, f) }
}

} // verus!
