//! Three-component vectors over fixed-point numbers, with their mathematical
//! model on raw integers.
use crate::arith::{div_toward_zero, div_tz, isqrt, isqrt_u128, lemma_mul_bound};
use crate::fixed::{in_range, product, ratio, saturate, Fixed, MAX_RAW, ONE_RAW};
use vstd::prelude::*;

verus! {

/// The model of a vector: its three raw components.
pub struct V3 {
    pub x: int,
    pub y: int,
    pub z: int,
}

/// The zero vector.
pub open spec fn v3_zero() -> V3 {
    V3 { x: 0, y: 0, z: 0 }
}

/// Whether every component is a representable raw value.
pub open spec fn v3_in_range(a: V3) -> bool {
    in_range(a.x) && in_range(a.y) && in_range(a.z)
}

/// Componentwise saturated sum.
pub open spec fn v3_add(a: V3, b: V3) -> V3 {
    V3 { x: saturate(a.x + b.x), y: saturate(a.y + b.y), z: saturate(a.z + b.z) }
}

/// Componentwise saturated difference.
pub open spec fn v3_sub(a: V3, b: V3) -> V3 {
    V3 { x: saturate(a.x - b.x), y: saturate(a.y - b.y), z: saturate(a.z - b.z) }
}

/// Componentwise negation.
pub open spec fn v3_neg(a: V3) -> V3 {
    V3 { x: -a.x, y: -a.y, z: -a.z }
}

/// The vector scaled by the number with raw value `k`.
pub open spec fn v3_scale(a: V3, k: int) -> V3 {
    V3 { x: product(a.x, k), y: product(a.y, k), z: product(a.z, k) }
}

/// The exact dot product of the raw components, on the squared scale.
pub open spec fn v3_dot_raw(a: V3, b: V3) -> int {
    a.x * b.x + a.y * b.y + a.z * b.z
}

/// The dot product as a raw value, rounded toward zero and saturated.
pub open spec fn v3_dot(a: V3, b: V3) -> int {
    saturate(div_tz(v3_dot_raw(a, b), ONE_RAW as int))
}

/// The exact Euclidean length of the raw components, rounded down.
pub open spec fn v3_length_raw(a: V3) -> int {
    isqrt(v3_dot_raw(a, a))
}

/// The length as a raw value, saturated.
pub open spec fn v3_length(a: V3) -> int {
    saturate(v3_length_raw(a))
}

/// The vector divided by its length, or the zero vector when the length is zero.
pub open spec fn v3_normalize(a: V3) -> V3 {
    let len = v3_length_raw(a);
    if len == 0 {
        v3_zero()
    } else {
        V3 { x: ratio(a.x, len), y: ratio(a.y, len), z: ratio(a.z, len) }
    }
}

/// The dot product of representable vectors fits in sixty-two bits.
pub proof fn lemma_dot_raw_bound(a: V3, b: V3)
    requires
        v3_in_range(a),
        v3_in_range(b),
    ensures
        -3 * (MAX_RAW * MAX_RAW) <= v3_dot_raw(a, b) <= 3 * (MAX_RAW * MAX_RAW),
        MAX_RAW * MAX_RAW == 0x1000_0000_0000_0000,
        v3_dot_raw(a, a) >= 0,
{
    let m = MAX_RAW as int;
    lemma_mul_bound(a.x, b.x, m, m);
    lemma_mul_bound(a.y, b.y, m, m);
    lemma_mul_bound(a.z, b.z, m, m);
    assert(a.x * a.x >= 0 && a.y * a.y >= 0 && a.z * a.z >= 0) by (nonlinear_arith);
}

/// A vector of three fixed-point numbers.
#[derive(Clone, Copy, Debug, PartialEq, Eq)]
pub struct Vec3 {
    pub x: Fixed,
    pub y: Fixed,
    pub z: Fixed,
}

impl View for Vec3 {
    type V = V3;

    open spec fn view(&self) -> V3 {
        V3 { x: self.x@, y: self.y@, z: self.z@ }
    }
}

impl Vec3 {
    /// The vector with the given components.
    pub fn new(x: Fixed, y: Fixed, z: Fixed) -> (r: Vec3)
        ensures
            r == (Vec3 { x, y, z }),
    {
        Vec3 { x, y, z }
    }

    /// The vector with the given integer components, each saturated.
    pub fn from_ints(x: i32, y: i32, z: i32) -> (r: Vec3)
        ensures
            r@ == (V3 {
                x: saturate(x * ONE_RAW),
                y: saturate(y * ONE_RAW),
                z: saturate(z * ONE_RAW),
            }),
    {
        Vec3 { x: Fixed::from_int(x), y: Fixed::from_int(y), z: Fixed::from_int(z) }
    }

    /// The zero vector.
    pub fn zero() -> (r: Vec3)
        ensures
            r@ == v3_zero(),
    {
        Vec3 { x: Fixed::zero(), y: Fixed::zero(), z: Fixed::zero() }
    }

    /// The saturated sum.
    pub fn add(self, rhs: Vec3) -> (r: Vec3)
        ensures
            r@ == v3_add(self@, rhs@),
    {
        Vec3 { x: self.x.add(rhs.x), y: self.y.add(rhs.y), z: self.z.add(rhs.z) }
    }

    /// The saturated difference.
    pub fn sub(self, rhs: Vec3) -> (r: Vec3)
        ensures
            r@ == v3_sub(self@, rhs@),
    {
        Vec3 { x: self.x.sub(rhs.x), y: self.y.sub(rhs.y), z: self.z.sub(rhs.z) }
    }

    /// The negation.
    pub fn neg(self) -> (r: Vec3)
        ensures
            r@ == v3_neg(self@),
    {
        Vec3 { x: self.x.neg(), y: self.y.neg(), z: self.z.neg() }
    }

    /// The vector scaled by `k`.
    pub fn scale(self, k: Fixed) -> (r: Vec3)
        ensures
            r@ == v3_scale(self@, k@),
    {
        Vec3 { x: self.x.mul(k), y: self.y.mul(k), z: self.z.mul(k) }
    }

    /// The exact dot product of the raw components.
    pub fn dot_raw(self, rhs: Vec3) -> (r: i64)
        ensures
            r == v3_dot_raw(self@, rhs@),
            -0x3000_0000_0000_0000 <= r <= 0x3000_0000_0000_0000,
            self == rhs ==> r >= 0,
    {
        let ax = self.x.raw();
        let ay = self.y.raw();
        let az = self.z.raw();
        let bx = rhs.x.raw();
        let by = rhs.y.raw();
        let bz = rhs.z.raw();
        proof {
            let m = MAX_RAW as int;
            lemma_mul_bound(ax as int, bx as int, m, m);
            lemma_mul_bound(ay as int, by as int, m, m);
            lemma_mul_bound(az as int, bz as int, m, m);
            lemma_dot_raw_bound(self@, rhs@);
        }
        ax * bx + ay * by + az * bz
    }

    /// The dot product, rounded toward zero and saturated.
    pub fn dot(self, rhs: Vec3) -> (r: Fixed)
        ensures
            r@ == v3_dot(self@, rhs@),
    {
        let d = self.dot_raw(rhs);
        Fixed::from_product(d)
    }

    /// The exact length of the raw components, rounded down.
    pub fn length_raw(self) -> (r: i64)
        ensures
            r == v3_length_raw(self@),
            0 <= r <= 0x8000_0000,
    {
        let n = self.dot_raw(self);
        let r = isqrt_u128(n as u128);
        proof {
            if r > 0x8000_0000 {
                assert(r * r > 0x3000_0000_0000_0000) by (nonlinear_arith)
                    requires
                        r > 0x8000_0000,
                ;
            }
        }
        r as i64
    }

    /// The length, saturated.
    pub fn length(self) -> (r: Fixed)
        ensures
            r@ == v3_length(self@),
    {
        Fixed::from_raw(self.length_raw())
    }

    /// The vector divided by its length; the zero vector stays zero.
    pub fn normalize_or_zero(self) -> (r: Vec3)
        ensures
            r@ == v3_normalize(self@),
    {
        let len = self.length_raw();
        if len == 0 {
            Vec3::zero()
        } else {
            Vec3 {
                x: Fixed::from_ratio(self.x.raw(), len),
                y: Fixed::from_ratio(self.y.raw(), len),
                z: Fixed::from_ratio(self.z.raw(), len),
            }
        }
    }
}

/// How many raw units of the fine scale make one raw unit of a fixed-point
/// number: the fine scale has thirty fractional bits.
pub const FINE_PER_RAW: i64 = 16384;

/// The largest magnitude of a raw coordinate of the fine scale.
pub const FINE_MAX_RAW: i64 = 17592186044416;

/// `v` clamped to the raw range of the fine scale.
pub open spec fn fine_saturate(v: int) -> int {
    if v < -FINE_MAX_RAW {
        -(FINE_MAX_RAW as int)
    } else if v > FINE_MAX_RAW {
        FINE_MAX_RAW as int
    } else {
        v
    }
}

/// The raw components of a vector on the fine scale.
pub open spec fn v3_fine(v: V3) -> V3 {
    V3 { x: v.x * FINE_PER_RAW, y: v.y * FINE_PER_RAW, z: v.z * FINE_PER_RAW }
}

/// The raw components of a vector of the fine scale on the common scale, each
/// rounded toward zero.
pub open spec fn v3_coarse(v: V3) -> V3 {
    V3 {
        x: div_tz(v.x, FINE_PER_RAW as int),
        y: div_tz(v.y, FINE_PER_RAW as int),
        z: div_tz(v.z, FINE_PER_RAW as int),
    }
}

/// The raw length that stands for one in the direction of a ray that is made
/// of a point of the fine scale: half of one on the fine scale, so that a
/// direction of a length up to two is representable.
pub const RAY_UNIT_RAW: i64 = 536870912;

/// The raw components of the direction from the origin to a point of the fine
/// scale, on the scale of [`RAY_UNIT_RAW`]: halved, rounded toward zero and
/// saturated.
pub open spec fn v3_direction(v: V3) -> V3 {
    V3 { x: saturate(div_tz(v.x, 2)), y: saturate(div_tz(v.y, 2)), z: saturate(div_tz(v.z, 2)) }
}

fn fine_clamp(v: i128) -> (r: i64)
    ensures
        r == fine_saturate(v as int),
        -FINE_MAX_RAW <= r <= FINE_MAX_RAW,
{
    if v < -(FINE_MAX_RAW as i128) {
        -FINE_MAX_RAW
    } else if v > FINE_MAX_RAW as i128 {
        FINE_MAX_RAW
    } else {
        v as i64
    }
}

/// A point of camera space on the fine scale, with thirty fractional bits in
/// each coordinate: the scale on which the canvas is mapped to the viewport
/// and points are projected back, so that a pixel of a large canvas is not
/// lost in the rounding of viewport coordinates.
#[derive(Clone, Copy, Debug, PartialEq, Eq)]
pub struct FinePoint {
    x: i64,
    y: i64,
    z: i64,
}

impl View for FinePoint {
    type V = V3;

    closed spec fn view(&self) -> V3 {
        V3 { x: self.x as int, y: self.y as int, z: self.z as int }
    }
}

impl FinePoint {
    #[verifier::type_invariant]
    closed spec fn bounded(self) -> bool {
        &&& -FINE_MAX_RAW <= self.x <= FINE_MAX_RAW
        &&& -FINE_MAX_RAW <= self.y <= FINE_MAX_RAW
        &&& -FINE_MAX_RAW <= self.z <= FINE_MAX_RAW
    }

    /// The point with the given raw coordinates of the fine scale, each
    /// saturated.
    pub fn from_raw(x: i64, y: i64, z: i64) -> (p: FinePoint)
        ensures
            p@ == (V3 {
                x: fine_saturate(x as int),
                y: fine_saturate(y as int),
                z: fine_saturate(z as int),
            }),
    {
        FinePoint { x: fine_clamp(x as i128), y: fine_clamp(y as i128), z: fine_clamp(z as i128) }
    }

    /// The vector `v` on the fine scale, which holds it exactly.
    pub fn from_vec3(v: Vec3) -> (p: FinePoint)
        ensures
            p@ == v3_fine(v@),
    {
        let x = v.x.raw();
        let y = v.y.raw();
        let z = v.z.raw();
        proof {
            lemma_mul_bound(x as int, FINE_PER_RAW as int, MAX_RAW as int, FINE_PER_RAW as int);
            lemma_mul_bound(y as int, FINE_PER_RAW as int, MAX_RAW as int, FINE_PER_RAW as int);
            lemma_mul_bound(z as int, FINE_PER_RAW as int, MAX_RAW as int, FINE_PER_RAW as int);
            assert(MAX_RAW * FINE_PER_RAW == FINE_MAX_RAW) by (nonlinear_arith);
        }
        FinePoint { x: x * FINE_PER_RAW, y: y * FINE_PER_RAW, z: z * FINE_PER_RAW }
    }

    /// The point on the common scale, each coordinate rounded toward zero.
    pub fn to_vec3(&self) -> (v: Vec3)
        ensures
            v@ == v3_coarse(self@),
    {
        proof {
            use_type_invariant(self);
            lemma_coarse_in_range(self.x as int);
            lemma_coarse_in_range(self.y as int);
            lemma_coarse_in_range(self.z as int);
        }
        Vec3 {
            x: Fixed::from_raw(div_toward_zero(self.x as i128, FINE_PER_RAW as i128) as i64),
            y: Fixed::from_raw(div_toward_zero(self.y as i128, FINE_PER_RAW as i128) as i64),
            z: Fixed::from_raw(div_toward_zero(self.z as i128, FINE_PER_RAW as i128) as i64),
        }
    }

    /// The direction from the origin to the point, for a ray: its components
    /// on the scale on which [`RAY_UNIT_RAW`] stands for one.
    pub fn to_direction(&self) -> (v: Vec3)
        ensures
            v@ == v3_direction(self@),
    {
        proof {
            use_type_invariant(self);
        }
        Vec3 {
            x: Fixed::from_raw(div_toward_zero(self.x as i128, 2) as i64),
            y: Fixed::from_raw(div_toward_zero(self.y as i128, 2) as i64),
            z: Fixed::from_raw(div_toward_zero(self.z as i128, 2) as i64),
        }
    }

    /// The raw coordinates of the fine scale.
    pub fn raw(&self) -> (r: (i64, i64, i64))
        ensures
            r.0 == self@.x,
            r.1 == self@.y,
            r.2 == self@.z,
            -FINE_MAX_RAW <= r.0 <= FINE_MAX_RAW,
            -FINE_MAX_RAW <= r.1 <= FINE_MAX_RAW,
            -FINE_MAX_RAW <= r.2 <= FINE_MAX_RAW,
    {
        proof {
            use_type_invariant(self);
        }
        (self.x, self.y, self.z)
    }
}

/// A coordinate of the fine scale is representable on the common scale.
pub proof fn lemma_coarse_in_range(a: int)
    requires
        -FINE_MAX_RAW <= a <= FINE_MAX_RAW,
    ensures
        in_range(div_tz(a, FINE_PER_RAW as int)),
{
    let m = crate::arith::abs(a);
    assert(0 <= m / 16384 <= 1073741824) by (nonlinear_arith)
        requires
            0 <= m <= 17592186044416,
    ;
}

} // verus!
