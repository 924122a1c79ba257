//! Exact decimal fixed-point numbers: a number type for the simulation whose
//! every operation is computed in integers and proved to give what its
//! specification says.

use vstd::prelude::*;
use crate::scalar::Scalar;

verus! {

/// The number of raw units in one: a `Fixed` counts millionths.
pub const SCALE: i64 = 1_000_000;

/// A number with six decimal places, held as a count of millionths.
///
/// Every operation is total. A result beyond the range of `i64` millionths is
/// the nearest end of that range, a quotient or product is rounded towards
/// zero, a division by zero gives the end of the range on the dividend's side
/// (and zero for zero by zero), and the root of a negative number is zero.
#[derive(Clone, Copy, Debug, PartialEq, Eq, Structural)]
pub struct Fixed {
    pub raw: i64,
}

/// `v`, or the end of the range of `i64` that is nearest to it.
pub open spec fn saturate_spec(v: int) -> i64 {
    if v < i64::MIN {
        i64::MIN
    } else if v > i64::MAX {
        i64::MAX
    } else {
        v as i64
    }
}

/// The quotient of `a` by `b`, rounded towards zero.
pub open spec fn toward_zero_spec(a: int, b: int) -> int
    recommends
        b != 0,
{
    if a >= 0 {
        a / b
    } else {
        -((-a) / b)
    }
}

/// Whether `r` is the square root of `x`, rounded down.
pub open spec fn is_floor_sqrt(x: int, r: int) -> bool {
    0 <= r && r * r <= x < (r + 1) * (r + 1)
}

/// The square root of `x`, rounded down.
pub open spec fn floor_sqrt_spec(x: int) -> int {
    choose|r: int| is_floor_sqrt(x, r)
}

/// A number has one rounded-down square root at most.
pub proof fn lemma_floor_sqrt_unique(x: int, r: int, s: int)
    requires
        is_floor_sqrt(x, r),
        is_floor_sqrt(x, s),
    ensures
        r == s,
{
    if r < s {
        assert((r + 1) * (r + 1) <= s * s) by (nonlinear_arith)
            requires
                0 <= r + 1 <= s,
        ;
    } else if s < r {
        assert((s + 1) * (s + 1) <= r * r) by (nonlinear_arith)
            requires
                0 <= s + 1 <= r,
        ;
    }
}

/// A quotient rounded towards zero is no further from zero than the dividend.
pub proof fn lemma_quotient_bounded(a: int, b: int)
    requires
        b != 0,
    ensures
        a >= 0 ==> -a <= toward_zero_spec(a, b) <= a,
        a < 0 ==> a <= toward_zero_spec(a, b) <= -a,
{
    let m = if a >= 0 { a } else { -a };
    let q = m / b;
    assert(-m <= q <= m) by (nonlinear_arith)
        requires
            m >= 0,
            b != 0,
            q == m / b,
    ;
}

/// `v`, or the end of the range of `i64` that is nearest to it.
fn saturate(v: i128) -> (r: i64)
    ensures
        r == saturate_spec(v as int),
{
    if v < -0x8000_0000_0000_0000i128 {
        i64::MIN
    } else if v > 0x7fff_ffff_ffff_ffffi128 {
        i64::MAX
    } else {
        v as i64
    }
}

/// The square root of `x`, rounded down, found by bisection.
fn floor_sqrt(x: u128) -> (r: u128)
    requires
        x < 0x4000_0000_0000_0000_0000_0000_0000_0000,
    ensures
        r == floor_sqrt_spec(x as int),
        is_floor_sqrt(x as int, r as int),
        r < 0x8000_0000_0000_0000,
{
    let mut low: u128 = 0;
    let mut high: u128 = 0x8000_0000_0000_0000;
    assert(0x8000_0000_0000_0000 * 0x8000_0000_0000_0000int
        == 0x4000_0000_0000_0000_0000_0000_0000_0000) by (nonlinear_arith);
    while high - low > 1
        invariant
            low < high <= 0x8000_0000_0000_0000,
            low * low <= x < high * high,
        decreases high - low,
    {
        let mid: u128 = low + (high - low) / 2;
        assert(mid * mid < 0x8000_0000_0000_0000 * 0x8000_0000_0000_0000) by (nonlinear_arith)
            requires
                0 <= mid < 0x8000_0000_0000_0000,
        ;
        if mid * mid <= x {
            low = mid;
        } else {
            high = mid;
        }
    }
    proof {
        assert(is_floor_sqrt(x as int, low as int));
        let chosen = floor_sqrt_spec(x as int);
        lemma_floor_sqrt_unique(x as int, low as int, chosen);
    }
    low
}

impl Scalar for Fixed {
    open spec fn from_int_spec(n: i32) -> Self {
        Fixed { raw: (n * SCALE) as i64 }
    }

    open spec fn plus_spec(self, rhs: Self) -> Self {
        Fixed { raw: saturate_spec(self.raw + rhs.raw) }
    }

    open spec fn minus_spec(self, rhs: Self) -> Self {
        Fixed { raw: saturate_spec(self.raw - rhs.raw) }
    }

    open spec fn times_spec(self, rhs: Self) -> Self {
        Fixed { raw: saturate_spec(toward_zero_spec(self.raw * rhs.raw, SCALE as int)) }
    }

    open spec fn over_spec(self, rhs: Self) -> Self {
        if rhs.raw != 0 {
            Fixed { raw: saturate_spec(toward_zero_spec(self.raw * SCALE, rhs.raw as int)) }
        } else if self.raw > 0 {
            Fixed { raw: i64::MAX }
        } else if self.raw < 0 {
            Fixed { raw: i64::MIN }
        } else {
            Fixed { raw: 0 }
        }
    }

    open spec fn neg_spec(self) -> Self {
        Fixed { raw: saturate_spec(-self.raw) }
    }

    open spec fn sqrt_spec(self) -> Self {
        if self.raw <= 0 {
            Fixed { raw: 0 }
        } else {
            Fixed { raw: floor_sqrt_spec(self.raw * SCALE) as i64 }
        }
    }

    open spec fn lt_spec(self, rhs: Self) -> bool {
        self.raw < rhs.raw
    }

    open spec fn is_zero_spec(self) -> bool {
        self.raw == 0
    }

    fn from_int(n: i32) -> (r: Self) {
        let wide: i64 = n as i64;
        Fixed { raw: wide * SCALE }
    }

    fn plus(self, rhs: Self) -> (r: Self) {
        let wide: i128 = self.raw as i128 + rhs.raw as i128;
        Fixed { raw: saturate(wide) }
    }

    fn minus(self, rhs: Self) -> (r: Self) {
        let wide: i128 = self.raw as i128 - rhs.raw as i128;
        Fixed { raw: saturate(wide) }
    }

    fn times(self, rhs: Self) -> (r: Self) {
        let a: i128 = self.raw as i128;
        let b: i128 = rhs.raw as i128;
        assert(-0x4000_0000_0000_0000_0000_0000_0000_0000 <= a * b
            <= 0x4000_0000_0000_0000_0000_0000_0000_0000) by (nonlinear_arith)
            requires
                -0x8000_0000_0000_0000 <= a <= 0x8000_0000_0000_0000,
                -0x8000_0000_0000_0000 <= b <= 0x8000_0000_0000_0000,
        ;
        let wide: i128 = a * b;
        Fixed { raw: saturate(wide / (SCALE as i128)) }
    }

    fn over(self, rhs: Self) -> (r: Self) {
        if rhs.raw != 0 {
            let wide: i128 = (self.raw as i128) * (SCALE as i128);
            proof {
                lemma_quotient_bounded(wide as int, rhs.raw as int);
            }
            Fixed { raw: saturate(wide / (rhs.raw as i128)) }
        } else if self.raw > 0 {
            Fixed { raw: i64::MAX }
        } else if self.raw < 0 {
            Fixed { raw: i64::MIN }
        } else {
            Fixed { raw: 0 }
        }
    }

    fn neg(self) -> (r: Self) {
        let wide: i128 = -(self.raw as i128);
        Fixed { raw: saturate(wide) }
    }

    fn sqrt(self) -> (r: Self) {
        if self.raw <= 0 {
            Fixed { raw: 0 }
        } else {
            let wide: u128 = (self.raw as u128) * (SCALE as u128);
            let root: u128 = floor_sqrt(wide);
            Fixed { raw: root as i64 }
        }
    }

    fn lt(self, rhs: Self) -> (r: bool) {
        self.raw < rhs.raw
    }

    fn is_zero(self) -> (r: bool) {
        self.raw == 0
    }
}

} // verus!
