//! What the friction floor and the wrap-around border guarantee on
//! fixed-point numbers, where order and arithmetic are those of the integers.

use vstd::prelude::*;
use crate::fixed::{lemma_quotient_bounded, Fixed, SCALE};
use crate::particles::{slowed_spec, wrapped_spec, SimulationConfig};
use crate::scalar::Scalar;

verus! {

/// The friction floor: friction never takes a component that is not negative
/// below zero, and where the loss `friction * dt` is not negative it never
/// raises a component, a negative one included.
pub proof fn lemma_friction_floor(v: Fixed, config: SimulationConfig<Fixed>, dt: Fixed)
    ensures
        v.raw >= 0 ==> slowed_spec(v, config, dt).raw >= 0,
        config.friction.times_spec(dt).raw >= 0 ==> slowed_spec(v, config, dt).raw <= v.raw,
        v.raw < 0 ==> slowed_spec(v, config, dt) == v.minus_spec(config.friction.times_spec(dt)),
{
}

/// The wrap-around border: in a world of an extent that is not negative, a
/// wrapped coordinate lies between the two borders, and a coordinate that lay
/// between them, or on one, is unchanged.
pub proof fn lemma_wrap_within(coordinate: Fixed, extent: Fixed)
    requires
        extent.raw >= 0,
    ensures
        extent.neg_spec().over_spec(Fixed::from_int_spec(2)).raw <= wrapped_spec(
            coordinate,
            extent,
        ).raw <= extent.over_spec(Fixed::from_int_spec(2)).raw,
        extent.neg_spec().over_spec(Fixed::from_int_spec(2)).raw <= coordinate.raw
            <= extent.over_spec(Fixed::from_int_spec(2)).raw ==> wrapped_spec(coordinate, extent)
            == coordinate,
{
    let two = Fixed::from_int_spec(2);
    assert(two.raw == 2 * SCALE);
    lemma_quotient_bounded(extent.raw * SCALE, two.raw as int);
    lemma_quotient_bounded(extent.neg_spec().raw * SCALE, two.raw as int);
    assert(extent.raw * SCALE >= 0) by (nonlinear_arith)
        requires
            extent.raw >= 0,
    ;
    assert(extent.neg_spec().raw * SCALE <= 0) by (nonlinear_arith)
        requires
            extent.neg_spec().raw <= 0,
    ;
}

} // verus!
