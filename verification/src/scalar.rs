//! The arithmetic that the simulation needs from its number type.

use vstd::prelude::*;

verus! {

/// A number type the simulation can compute with.
///
/// Every operation is total and is a function of its operands alone: each
/// executable method returns exactly the value that its specification
/// function names. The simulation's contracts are stated over these
/// specification functions, so they hold for every implementation, whatever
/// its range and rounding. `fixed::Fixed` is one, proved to keep this
/// contract. An implementation over a machine's own arithmetic, written
/// without proof, keeps it by giving each specification function the body of
/// its operation.
pub trait Scalar: Copy + Sized {
    /// The number that stands for the integer `n`.
    spec fn from_int_spec(n: i32) -> Self;

    /// `self + rhs`.
    spec fn plus_spec(self, rhs: Self) -> Self;

    /// `self - rhs`.
    spec fn minus_spec(self, rhs: Self) -> Self;

    /// `self * rhs`.
    spec fn times_spec(self, rhs: Self) -> Self;

    /// `self / rhs`.
    spec fn over_spec(self, rhs: Self) -> Self;

    /// `-self`.
    spec fn neg_spec(self) -> Self;

    /// The non-negative square root of `self`.
    spec fn sqrt_spec(self) -> Self;

    /// Whether `self` is strictly less than `rhs`.
    spec fn lt_spec(self, rhs: Self) -> bool;

    /// Whether `self` is exactly zero.
    spec fn is_zero_spec(self) -> bool;

    fn from_int(n: i32) -> (r: Self)
        ensures
            r == Self::from_int_spec(n),
    ;

    fn plus(self, rhs: Self) -> (r: Self)
        ensures
            r == self.plus_spec(rhs),
    ;

    fn minus(self, rhs: Self) -> (r: Self)
        ensures
            r == self.minus_spec(rhs),
    ;

    fn times(self, rhs: Self) -> (r: Self)
        ensures
            r == self.times_spec(rhs),
    ;

    fn over(self, rhs: Self) -> (r: Self)
        ensures
            r == self.over_spec(rhs),
    ;

    fn neg(self) -> (r: Self)
        ensures
            r == self.neg_spec(),
    ;

    fn sqrt(self) -> (r: Self)
        ensures
            r == self.sqrt_spec(),
    ;

    fn lt(self, rhs: Self) -> (r: bool)
        ensures
            r == self.lt_spec(rhs),
    ;

    fn is_zero(self) -> (r: bool)
        ensures
            r == self.is_zero_spec(),
    ;
}

} // verus!
