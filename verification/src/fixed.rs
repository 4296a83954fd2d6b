//! Fixed-point real numbers: sixteen fractional bits, a bounded magnitude and
//! saturating arithmetic.
//!
//! A [`Fixed`] stands for the real number `raw / 65536`. Every operation is total:
//! a result that leaves the representable range is clamped to its nearest
//! bound, and the bounds double as plus and minus infinity.
use crate::arith::{abs, div_toward_zero, div_tz, lemma_mul_bound};
use vstd::prelude::*;

verus! {

/// The raw value of the number one.
pub const ONE_RAW: i64 = 65536;

/// The largest magnitude of a raw value.
pub const MAX_RAW: i64 = 1073741824;

/// `v` clamped to the representable raw range.
pub open spec fn saturate(v: int) -> int {
    if v < -MAX_RAW {
        -(MAX_RAW as int)
    } else if v > MAX_RAW {
        MAX_RAW as int
    } else {
        v
    }
}

/// Whether `v` is a representable raw value.
pub open spec fn in_range(v: int) -> bool {
    -MAX_RAW <= v <= MAX_RAW
}

/// The raw value of `num / den`, rounded toward zero and saturated. A zero
/// denominator gives the bound that has the sign of `num`.
pub open spec fn ratio(num: int, den: int) -> int {
    if den == 0 {
        saturate(num * MAX_RAW)
    } else {
        saturate(div_tz(num * ONE_RAW, den))
    }
}

/// The raw value of the product of the numbers with raw values `a` and `b`.
pub open spec fn product(a: int, b: int) -> int {
    saturate(div_tz(a * b, ONE_RAW as int))
}

/// The raw value of `a * b / c`, rounded once. A zero `c` gives the bound that
/// has the sign of `a * b`.
pub open spec fn product_ratio(a: int, b: int, c: int) -> int {
    if c == 0 {
        saturate(a * b * MAX_RAW)
    } else {
        saturate(div_tz(a * b, c))
    }
}

/// The raw value `num / den`, rounded toward zero and saturated, of a
/// numerator and a denominator that are on scales one apart. A zero
/// denominator gives the bound that has the sign of `num`.
pub open spec fn quotient(num: int, den: int) -> int {
    if den == 0 {
        saturate(num * MAX_RAW)
    } else {
        saturate(div_tz(num, den))
    }
}

/// The integer part of the number with raw value `a`, rounded toward zero.
pub open spec fn integer_part(a: int) -> int {
    div_tz(a, ONE_RAW as int)
}

/// Clamps a wide integer to the raw range.
pub fn saturate_wide(v: i128) -> (r: i64)
    ensures
        r == saturate(v as int),
        in_range(r as int),
{
    if v < -(MAX_RAW as i128) {
        -MAX_RAW
    } else if v > MAX_RAW as i128 {
        MAX_RAW
    } else {
        v as i64
    }
}

/// A fixed-point number.
#[derive(Clone, Copy, Debug, PartialEq, Eq)]
pub struct Fixed {
    raw: i64,
}

impl View for Fixed {
    type V = int;

    closed spec fn view(&self) -> int {
        self.raw as int
    }
}

impl Fixed {
    #[verifier::type_invariant]
    closed spec fn bounded(self) -> bool {
        -MAX_RAW <= self.raw <= MAX_RAW
    }

    /// The number with the given raw value, saturated.
    pub fn from_raw(raw: i64) -> (r: Fixed)
        ensures
            r@ == saturate(raw as int),
    {
        Fixed { raw: saturate_wide(raw as i128) }
    }

    /// The integer `v` as a fixed-point number, saturated.
    pub fn from_int(v: i32) -> (r: Fixed)
        ensures
            r@ == saturate(v * ONE_RAW),
    {
        proof {
            lemma_mul_bound(v as int, ONE_RAW as int, 0x8000_0000, ONE_RAW as int);
        }
        Fixed { raw: saturate_wide(v as i128 * ONE_RAW as i128) }
    }

    /// The fraction `num / den`, rounded toward zero and saturated.
    pub fn from_ratio(num: i64, den: i64) -> (r: Fixed)
        ensures
            r@ == ratio(num as int, den as int),
    {
        proof {
            lemma_mul_bound(num as int, MAX_RAW as int, 0x8000_0000_0000_0000, MAX_RAW as int);
            lemma_mul_bound(num as int, ONE_RAW as int, 0x8000_0000_0000_0000, ONE_RAW as int);
        }
        if den == 0 {
            Fixed { raw: saturate_wide(num as i128 * MAX_RAW as i128) }
        } else {
            let q = div_toward_zero(num as i128 * ONE_RAW as i128, den as i128);
            Fixed { raw: saturate_wide(q) }
        }
    }

    /// The number whose raw value is `v / 65536`: brings a product of two raw
    /// values back to the scale of one.
    pub fn from_product(v: i64) -> (r: Fixed)
        ensures
            r@ == saturate(div_tz(v as int, ONE_RAW as int)),
    {
        Fixed { raw: saturate_wide(div_toward_zero(v as i128, ONE_RAW as i128)) }
    }

    /// Zero.
    pub fn zero() -> (r: Fixed)
        ensures
            r@ == 0,
    {
        Fixed { raw: 0 }
    }

    /// One.
    pub fn one() -> (r: Fixed)
        ensures
            r@ == ONE_RAW,
    {
        Fixed { raw: ONE_RAW }
    }

    /// The largest number, which also stands for plus infinity.
    pub fn max_value() -> (r: Fixed)
        ensures
            r@ == MAX_RAW,
    {
        Fixed { raw: MAX_RAW }
    }

    /// The smallest number, which also stands for minus infinity.
    pub fn min_value() -> (r: Fixed)
        ensures
            r@ == -MAX_RAW,
    {
        Fixed { raw: -MAX_RAW }
    }

    /// The raw value.
    pub fn raw(self) -> (r: i64)
        ensures
            r == self@,
            in_range(r as int),
    {
        proof {
            use_type_invariant(&self);
        }
        self.raw
    }

    /// The integer part, rounded toward zero.
    pub fn to_int(self) -> (r: i32)
        ensures
            r == integer_part(self@),
            -16384 <= r <= 16384,
    {
        let a = self.raw();
        let q = div_toward_zero(a as i128, ONE_RAW as i128);
        proof {
            lemma_integer_part_bound(a as int);
        }
        q as i32
    }

    /// The saturated sum.
    pub fn add(self, rhs: Fixed) -> (r: Fixed)
        ensures
            r@ == saturate(self@ + rhs@),
    {
        Fixed { raw: saturate_wide(self.raw() as i128 + rhs.raw() as i128) }
    }

    /// The saturated difference.
    pub fn sub(self, rhs: Fixed) -> (r: Fixed)
        ensures
            r@ == saturate(self@ - rhs@),
    {
        Fixed { raw: saturate_wide(self.raw() as i128 - rhs.raw() as i128) }
    }

    /// The negation, which is always representable.
    pub fn neg(self) -> (r: Fixed)
        ensures
            r@ == -self@,
    {
        Fixed { raw: -self.raw() }
    }

    /// The product, rounded toward zero and saturated.
    pub fn mul(self, rhs: Fixed) -> (r: Fixed)
        ensures
            r@ == product(self@, rhs@),
    {
        let a = self.raw();
        let b = rhs.raw();
        proof {
            lemma_mul_bound(a as int, b as int, MAX_RAW as int, MAX_RAW as int);
        }
        let q = div_toward_zero(a as i128 * b as i128, ONE_RAW as i128);
        Fixed { raw: saturate_wide(q) }
    }

    /// The quotient, rounded toward zero and saturated; division by zero
    /// gives the bound that has the sign of `self`.
    pub fn div(self, rhs: Fixed) -> (r: Fixed)
        ensures
            r@ == ratio(self@, rhs@),
    {
        Fixed::from_ratio(self.raw(), rhs.raw())
    }

    /// `self * b / c`, rounded once and saturated; a zero `c` gives the bound
    /// that has the sign of `self * b`.
    pub fn mul_div(self, b: Fixed, c: Fixed) -> (r: Fixed)
        ensures
            r@ == product_ratio(self@, b@, c@),
    {
        let a = self.raw();
        let b = b.raw();
        let c = c.raw();
        proof {
            lemma_mul_bound(a as int, b as int, MAX_RAW as int, MAX_RAW as int);
        }
        let ab: i128 = a as i128 * b as i128;
        if c == 0 {
            proof {
                lemma_mul_bound(ab as int, MAX_RAW as int, MAX_RAW * MAX_RAW, MAX_RAW as int);
            }
            Fixed { raw: saturate_wide(ab * MAX_RAW as i128) }
        } else {
            Fixed { raw: saturate_wide(div_toward_zero(ab, c as i128)) }
        }
    }

    /// Whether `self` is less than `rhs`.
    pub fn lt(self, rhs: Fixed) -> (r: bool)
        ensures
            r == (self@ < rhs@),
    {
        self.raw() < rhs.raw()
    }

    /// Whether `self` is at most `rhs`.
    pub fn le(self, rhs: Fixed) -> (r: bool)
        ensures
            r == (self@ <= rhs@),
    {
        self.raw() <= rhs.raw()
    }

    /// Whether `self` lies in the closed interval from `low` to `high`.
    pub fn within(self, low: Fixed, high: Fixed) -> (r: bool)
        ensures
            r == (low@ <= self@ <= high@),
    {
        low.raw() <= self.raw() && self.raw() <= high.raw()
    }
}

/// Two fixed-point numbers with the same raw value are the same number.
pub proof fn lemma_fixed_equal(a: Fixed, b: Fixed)
    requires
        a@ == b@,
    ensures
        a == b,
{
}

/// The integer part of a representable number fits in fifteen bits.
pub proof fn lemma_integer_part_bound(a: int)
    requires
        in_range(a),
    ensures
        -16384 <= integer_part(a) <= 16384,
{
    let aa = abs(a);
    assert(aa / 65536 <= 16384) by (nonlinear_arith)
        requires
            0 <= aa <= 1073741824,
    ;
    assert(0 <= aa / 65536) by (nonlinear_arith)
        requires
            0 <= aa,
    ;
}

} // verus!
