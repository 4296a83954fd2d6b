//! Linear interpolation over integer steps and signed distances to planes.
use crate::arith::{abs, div_toward_zero, div_tz, lemma_mul_bound};
use crate::fixed::{in_range, saturate, Fixed, MAX_RAW, ONE_RAW};
use crate::vector::{v3_dot_raw, Vec3, V3};
use vstd::prelude::*;

verus! {

/// How many values an interpolation from step `i0` to step `i1` has: one per
/// step of the closed range, and none when the range runs backwards.
pub open spec fn interpolate_len(i0: int, i1: int) -> nat {
    if i0 <= i1 {
        (i1 - i0 + 1) as nat
    } else {
        0
    }
}

/// The raw value that the line through `(i0, d0)` and `(i1, d1)` has `k` steps
/// after `i0`, rounded toward `d0`. When both ends are the same step it is `d0`.
pub open spec fn interpolate_at(i0: int, d0: int, i1: int, d1: int, k: int) -> int {
    if i0 == i1 {
        d0
    } else {
        d0 + div_tz(k * (d1 - d0), i1 - i0)
    }
}

/// An interpolated value lies between the two end values.
pub proof fn lemma_interpolate_between(i0: int, d0: int, i1: int, d1: int, k: int)
    requires
        i0 <= i1,
        0 <= k <= i1 - i0,
    ensures
        d0 <= d1 ==> d0 <= interpolate_at(i0, d0, i1, d1, k) <= d1,
        d1 <= d0 ==> d1 <= interpolate_at(i0, d0, i1, d1, k) <= d0,
        k == 0 ==> interpolate_at(i0, d0, i1, d1, k) == d0,
        i0 < i1 && k == i1 - i0 ==> interpolate_at(i0, d0, i1, d1, k) == d1,
{
    if i0 < i1 {
        let n = i1 - i0;
        let delta = abs(d1 - d0);
        let num = k * delta;
        assert(0 <= num <= n * delta) by (nonlinear_arith)
            requires
                num == k * delta,
                0 <= k <= n,
                0 <= delta,
        ;
        assert(0 <= num / n <= delta) by (nonlinear_arith)
            requires
                0 <= num <= n * delta,
                0 < n,
        ;
        assert(k == 0 ==> num / n == 0) by (nonlinear_arith)
            requires
                num == k * delta,
                0 < n,
        ;
        if k == n {
            assert((n * delta) / n == delta) by (nonlinear_arith)
                requires
                    0 < n,
            ;
        }
        if d1 < d0 {
            assert(k * (d1 - d0) == -num) by (nonlinear_arith)
                requires
                    num == k * delta,
                    delta == -(d1 - d0),
            ;
        }
    }
}

/// Interpolates linearly from `d0` at step `i0` to `d1` at step `i1`: one value
/// for each step of the closed range, the first of them `d0`. With `i0 == i1`
/// the result is the single value `d0`.
pub fn interpolate(i0: i32, d0: Fixed, i1: i32, d1: Fixed) -> (values: Vec<Fixed>)
    ensures
        values@.len() == interpolate_len(i0 as int, i1 as int),
        forall|k: int|
            0 <= k < values@.len() ==> #[trigger] values@[k]@ == interpolate_at(
                i0 as int,
                d0@,
                i1 as int,
                d1@,
                k,
            ),
{
    let mut values: Vec<Fixed> = Vec::new();
    if i0 == i1 {
        values.push(d0);
        return values;
    }
    if i0 > i1 {
        return values;
    }
    let n: i64 = i1 as i64 - i0 as i64;
    let a = d0.raw();
    let delta: i64 = d1.raw() - a;
    let mut k: i64 = 0;
    while k <= n
        invariant
            0 <= k <= n + 1,
            n == i1 - i0,
            0 < n < 0x1_0000_0000,
            i0 != i1,
            a == d0@,
            delta == d1@ - d0@,
            in_range(d0@),
            in_range(d1@),
            values@.len() == k,
            forall|j: int|
                0 <= j < k ==> #[trigger] values@[j]@ == interpolate_at(
                    i0 as int,
                    d0@,
                    i1 as int,
                    d1@,
                    j,
                ),
        decreases n + 1 - k,
    {
        proof {
            lemma_mul_bound(k as int, delta as int, 0x1_0000_0000, 2 * MAX_RAW);
            lemma_interpolate_between(i0 as int, d0@, i1 as int, d1@, k as int);
        }
        let step = div_toward_zero(k as i128 * delta as i128, n as i128);
        let value = Fixed::from_raw((a as i128 + step) as i64);
        values.push(value);
        k = k + 1;
    }
    values
}

/// The signed distance from the plane with normal `normal` and offset
/// `distance` to the point `point`, as a raw value: the dot product of point
/// and normal plus the offset, saturated.
pub open spec fn plane_signed_distance(normal: V3, distance: int, point: V3) -> int {
    saturate(div_tz(v3_dot_raw(point, normal), ONE_RAW as int) + distance)
}

/// A plane, given by its normal and its offset from the origin along the
/// normal. The half-space in front of it holds the points whose signed
/// distance is positive.
#[derive(Clone, Copy, Debug)]
pub struct Plane {
    pub normal: Vec3,
    pub distance: Fixed,
}

impl Plane {
    /// The plane with the given normal and offset.
    pub fn new(normal: Vec3, distance: Fixed) -> (p: Plane)
        ensures
            p == (Plane { normal, distance }),
    {
        Plane { normal, distance }
    }

    /// The normal.
    pub fn get_normal(&self) -> (n: Vec3)
        ensures
            n == self.normal,
    {
        self.normal
    }

    /// The offset.
    pub fn get_distance(&self) -> (d: Fixed)
        ensures
            d == self.distance,
    {
        self.distance
    }

    /// The signed distance of `v`: positive in front of the plane, negative
    /// behind it.
    pub fn signed_distance(&self, v: &Vec3) -> (d: Fixed)
        ensures
            d@ == plane_signed_distance(self.normal@, self.distance@, v@),
    {
        let dot = v.dot_raw(self.normal);
        let q = div_toward_zero(dot as i128, ONE_RAW as i128);
        let sum: i128 = q + self.distance.raw() as i128;
        Fixed::from_raw(crate::fixed::saturate_wide(sum))
    }
}

} // verus!
