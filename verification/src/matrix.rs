//! Rotations as quaternions and affine transformations as matrices, over
//! fixed-point numbers.
use crate::arith::{div_toward_zero, div_tz, lemma_mul_bound};
use crate::fixed::{saturate, saturate_wide, Fixed, MAX_RAW, ONE_RAW};
use crate::vector::{v3_scale, Vec3, V3};
use vstd::prelude::*;

verus! {

/// The model of a quaternion: its four raw components.
pub struct Q4 {
    pub x: int,
    pub y: int,
    pub z: int,
    pub w: int,
}

/// The model of an affine transformation: the images of the three unit
/// vectors and the translation. As a matrix of four by four these are the first
/// three rows of its columns; its last row is `(0, 0, 0, 1)`.
pub struct M4 {
    pub x_axis: V3,
    pub y_axis: V3,
    pub z_axis: V3,
    pub w_axis: V3,
}

/// `one - (p + q) / one` for two products `p` and `q` of raw values, as a raw
/// value.
pub open spec fn one_minus(p: int, q: int) -> int {
    saturate(ONE_RAW - div_tz(p + q, ONE_RAW as int))
}

/// `(p + q) / one` for two products `p` and `q` of raw values, as a raw value.
pub open spec fn rescaled(p: int, q: int) -> int {
    saturate(div_tz(p + q, ONE_RAW as int))
}

/// The images of the three unit vectors under the rotation of a unit
/// quaternion.
pub open spec fn q4_axes(q: Q4) -> (V3, V3, V3) {
    let xx = q.x * (2 * q.x);
    let xy = q.x * (2 * q.y);
    let xz = q.x * (2 * q.z);
    let yy = q.y * (2 * q.y);
    let yz = q.y * (2 * q.z);
    let zz = q.z * (2 * q.z);
    let wx = q.w * (2 * q.x);
    let wy = q.w * (2 * q.y);
    let wz = q.w * (2 * q.z);
    (
        V3 { x: one_minus(yy, zz), y: rescaled(xy, wz), z: rescaled(xz, -wy) },
        V3 { x: rescaled(xy, -wz), y: one_minus(xx, zz), z: rescaled(yz, wx) },
        V3 { x: rescaled(xz, wy), y: rescaled(yz, -wx), z: one_minus(xx, yy) },
    )
}

/// One coordinate of the image of `v` under a linear map: the dot product of
/// a row `(a, b, c)` with `v`, plus the raw offset `t`, saturated.
pub open spec fn row_times(a: int, b: int, c: int, v: V3, t: int) -> int {
    saturate(div_tz(a * v.x + b * v.y + c * v.z, ONE_RAW as int) + t)
}

/// The image of the direction `v`: the translation is left out.
pub open spec fn m4_transform_vector(m: M4, v: V3) -> V3 {
    V3 {
        x: row_times(m.x_axis.x, m.y_axis.x, m.z_axis.x, v, 0),
        y: row_times(m.x_axis.y, m.y_axis.y, m.z_axis.y, v, 0),
        z: row_times(m.x_axis.z, m.y_axis.z, m.z_axis.z, v, 0),
    }
}

/// The image of the point `v`.
pub open spec fn m4_transform_point(m: M4, v: V3) -> V3 {
    V3 {
        x: row_times(m.x_axis.x, m.y_axis.x, m.z_axis.x, v, m.w_axis.x),
        y: row_times(m.x_axis.y, m.y_axis.y, m.z_axis.y, v, m.w_axis.y),
        z: row_times(m.x_axis.z, m.y_axis.z, m.z_axis.z, v, m.w_axis.z),
    }
}

/// The transformation that applies `b` first and `a` second.
pub open spec fn m4_mul(a: M4, b: M4) -> M4 {
    M4 {
        x_axis: m4_transform_vector(a, b.x_axis),
        y_axis: m4_transform_vector(a, b.y_axis),
        z_axis: m4_transform_vector(a, b.z_axis),
        w_axis: m4_transform_point(a, b.w_axis),
    }
}

/// The transformation that scales by `scale` along the axes, then rotates by
/// `rotation`, then moves by `translation`.
pub open spec fn m4_from_scale_rotation_translation(scale: V3, rotation: Q4, translation: V3) -> M4 {
    let (x_axis, y_axis, z_axis) = q4_axes(rotation);
    M4 {
        x_axis: v3_scale(x_axis, scale.x),
        y_axis: v3_scale(y_axis, scale.y),
        z_axis: v3_scale(z_axis, scale.z),
        w_axis: translation,
    }
}

/// The transformation that rotates by `rotation`, then moves by `translation`.
pub open spec fn m4_from_rotation_translation(rotation: Q4, translation: V3) -> M4 {
    let (x_axis, y_axis, z_axis) = q4_axes(rotation);
    M4 { x_axis, y_axis, z_axis, w_axis: translation }
}

/// The conjugate of a quaternion, which for a unit quaternion is the rotation
/// turned the other way.
pub open spec fn q4_conjugate(q: Q4) -> Q4 {
    Q4 { x: -q.x, y: -q.y, z: -q.z, w: q.w }
}

/// The rotation of the conjugate is the rotation transposed: what the one
/// does to the unit vectors the other undoes, entry for entry.
pub proof fn lemma_conjugate_transposes(q: Q4)
    ensures
        ({
            let (x, y, z) = q4_axes(q);
            let (cx, cy, cz) = q4_axes(q4_conjugate(q));
            &&& cx == (V3 { x: x.x, y: y.x, z: z.x })
            &&& cy == (V3 { x: x.y, y: y.y, z: z.y })
            &&& cz == (V3 { x: x.z, y: y.z, z: z.z })
        }),
{
    let (x, y, z, w) = (q.x, q.y, q.z, q.w);
    assert((-x) * (2 * (-x)) == x * (2 * x)) by (nonlinear_arith);
    assert((-y) * (2 * (-y)) == y * (2 * y)) by (nonlinear_arith);
    assert((-z) * (2 * (-z)) == z * (2 * z)) by (nonlinear_arith);
    assert((-x) * (2 * (-y)) == x * (2 * y)) by (nonlinear_arith);
    assert((-x) * (2 * (-z)) == x * (2 * z)) by (nonlinear_arith);
    assert((-y) * (2 * (-z)) == y * (2 * z)) by (nonlinear_arith);
    assert(w * (2 * (-x)) == -(w * (2 * x))) by (nonlinear_arith);
    assert(w * (2 * (-y)) == -(w * (2 * y))) by (nonlinear_arith);
    assert(w * (2 * (-z)) == -(w * (2 * z))) by (nonlinear_arith);
}

/// The vector `v` rotated by the unit quaternion `q`.
pub open spec fn q4_rotate(q: Q4, v: V3) -> V3 {
    let (x_axis, y_axis, z_axis) = q4_axes(q);
    m4_transform_vector(M4 { x_axis, y_axis, z_axis, w_axis: V3 { x: 0, y: 0, z: 0 } }, v)
}

/// A quaternion, which stands for a rotation when its length is one.
#[derive(Clone, Copy, Debug, PartialEq, Eq)]
pub struct Quat {
    pub x: Fixed,
    pub y: Fixed,
    pub z: Fixed,
    pub w: Fixed,
}

impl View for Quat {
    type V = Q4;

    open spec fn view(&self) -> Q4 {
        Q4 { x: self.x@, y: self.y@, z: self.z@, w: self.w@ }
    }
}

fn one_minus_products(a: i64, b: i64, c: i64, d: i64) -> (r: Fixed)
    requires
        -MAX_RAW <= a <= MAX_RAW,
        -2 * MAX_RAW <= b <= 2 * MAX_RAW,
        -MAX_RAW <= c <= MAX_RAW,
        -2 * MAX_RAW <= d <= 2 * MAX_RAW,
    ensures
        r@ == one_minus(a * b, c * d),
{
    proof {
        lemma_mul_bound(a as int, b as int, MAX_RAW as int, 2 * MAX_RAW);
        lemma_mul_bound(c as int, d as int, MAX_RAW as int, 2 * MAX_RAW);
    }
    let sum: i128 = a as i128 * b as i128 + c as i128 * d as i128;
    let q = div_toward_zero(sum, ONE_RAW as i128);
    Fixed::from_raw(saturate_wide(ONE_RAW as i128 - q))
}

fn rescaled_products(a: i64, b: i64, c: i64, d: i64) -> (r: Fixed)
    requires
        -MAX_RAW <= a <= MAX_RAW,
        -2 * MAX_RAW <= b <= 2 * MAX_RAW,
        -MAX_RAW <= c <= MAX_RAW,
        -2 * MAX_RAW <= d <= 2 * MAX_RAW,
    ensures
        r@ == rescaled(a * b, c * d),
{
    proof {
        lemma_mul_bound(a as int, b as int, MAX_RAW as int, 2 * MAX_RAW);
        lemma_mul_bound(c as int, d as int, MAX_RAW as int, 2 * MAX_RAW);
    }
    let sum: i128 = a as i128 * b as i128 + c as i128 * d as i128;
    Fixed::from_raw(saturate_wide(div_toward_zero(sum, ONE_RAW as i128)))
}

fn row_by_vector(a: Fixed, b: Fixed, c: Fixed, v: &Vec3, t: Fixed) -> (r: Fixed)
    ensures
        r@ == row_times(a@, b@, c@, v@, t@),
{
    let ar = a.raw();
    let br = b.raw();
    let cr = c.raw();
    let vx = v.x.raw();
    let vy = v.y.raw();
    let vz = v.z.raw();
    proof {
        let m = MAX_RAW as int;
        lemma_mul_bound(ar as int, vx as int, m, m);
        lemma_mul_bound(br as int, vy as int, m, m);
        lemma_mul_bound(cr as int, vz as int, m, m);
        assert(m * m == 0x1000_0000_0000_0000) by (nonlinear_arith)
            requires
                m == 1073741824,
        ;
    }
    let sum: i128 = ar as i128 * vx as i128 + br as i128 * vy as i128 + cr as i128 * vz as i128;
    let q = div_toward_zero(sum, ONE_RAW as i128);
    Fixed::from_raw(saturate_wide(q + t.raw() as i128))
}

impl Quat {
    /// The quaternion with the given components.
    pub fn new(x: Fixed, y: Fixed, z: Fixed, w: Fixed) -> (q: Quat)
        ensures
            q == (Quat { x, y, z, w }),
    {
        Quat { x, y, z, w }
    }

    /// The rotation that turns nothing.
    pub fn identity() -> (q: Quat)
        ensures
            q@ == (Q4 { x: 0, y: 0, z: 0, w: ONE_RAW as int }),
    {
        Quat { x: Fixed::zero(), y: Fixed::zero(), z: Fixed::zero(), w: Fixed::one() }
    }

    /// The conjugate: for a rotation, the rotation the other way.
    pub fn conjugate(&self) -> (q: Quat)
        ensures
            q@ == q4_conjugate(self@),
    {
        Quat { x: self.x.neg(), y: self.y.neg(), z: self.z.neg(), w: self.w }
    }

    /// The images of the three unit vectors under the rotation.
    pub fn axes(&self) -> (a: (Vec3, Vec3, Vec3))
        ensures
            (a.0@, a.1@, a.2@) == q4_axes(self@),
    {
        let x = self.x.raw();
        let y = self.y.raw();
        let z = self.z.raw();
        let w = self.w.raw();
        let x2 = 2 * x;
        let y2 = 2 * y;
        let z2 = 2 * z;
        proof {
            assert(w * (2 * y) == -(w * (-(2 * y)))) by (nonlinear_arith);
            assert(w * (2 * z) == -(w * (-(2 * z)))) by (nonlinear_arith);
            assert(w * (2 * x) == -(w * (-(2 * x)))) by (nonlinear_arith);
        }
        (
            Vec3 {
                x: one_minus_products(y, y2, z, z2),
                y: rescaled_products(x, y2, w, z2),
                z: rescaled_products(x, z2, w, -y2),
            },
            Vec3 {
                x: rescaled_products(x, y2, w, -z2),
                y: one_minus_products(x, x2, z, z2),
                z: rescaled_products(y, z2, w, x2),
            },
            Vec3 {
                x: rescaled_products(x, z2, w, y2),
                y: rescaled_products(y, z2, w, -x2),
                z: one_minus_products(x, x2, y, y2),
            },
        )
    }

    /// The vector `v` rotated.
    pub fn rotate(&self, v: Vec3) -> (r: Vec3)
        ensures
            r@ == q4_rotate(self@, v@),
    {
        let (x_axis, y_axis, z_axis) = self.axes();
        Mat4 { x_axis, y_axis, z_axis, w_axis: Vec3::zero() }.transform_vector(v)
    }
}

impl Default for Quat {
    /// The rotation that turns nothing.
    fn default() -> (q: Quat)
        ensures
            q@ == (Q4 { x: 0, y: 0, z: 0, w: ONE_RAW as int }),
    {
        Quat::identity()
    }
}

/// An affine transformation of space.
#[derive(Clone, Copy, Debug, PartialEq, Eq)]
pub struct Mat4 {
    pub x_axis: Vec3,
    pub y_axis: Vec3,
    pub z_axis: Vec3,
    pub w_axis: Vec3,
}

impl View for Mat4 {
    type V = M4;

    open spec fn view(&self) -> M4 {
        M4 {
            x_axis: self.x_axis@,
            y_axis: self.y_axis@,
            z_axis: self.z_axis@,
            w_axis: self.w_axis@,
        }
    }
}

impl Mat4 {
    /// The transformation that scales by `scale` along the axes, then rotates
    /// by `rotation`, then moves by `translation`.
    pub fn from_scale_rotation_translation(scale: Vec3, rotation: Quat, translation: Vec3) -> (m:
        Mat4)
        ensures
            m@ == m4_from_scale_rotation_translation(scale@, rotation@, translation@),
    {
        let (x_axis, y_axis, z_axis) = rotation.axes();
        Mat4 {
            x_axis: x_axis.scale(scale.x),
            y_axis: y_axis.scale(scale.y),
            z_axis: z_axis.scale(scale.z),
            w_axis: translation,
        }
    }

    /// The transformation that rotates by `rotation`, then moves by
    /// `translation`.
    pub fn from_rotation_translation(rotation: Quat, translation: Vec3) -> (m: Mat4)
        ensures
            m@ == m4_from_rotation_translation(rotation@, translation@),
    {
        let (x_axis, y_axis, z_axis) = rotation.axes();
        Mat4 { x_axis, y_axis, z_axis, w_axis: translation }
    }

    /// The image of the direction `v`: the translation is left out.
    pub fn transform_vector(&self, v: Vec3) -> (r: Vec3)
        ensures
            r@ == m4_transform_vector(self@, v@),
    {
        let zero = Fixed::zero();
        Vec3 {
            x: row_by_vector(self.x_axis.x, self.y_axis.x, self.z_axis.x, &v, zero),
            y: row_by_vector(self.x_axis.y, self.y_axis.y, self.z_axis.y, &v, zero),
            z: row_by_vector(self.x_axis.z, self.y_axis.z, self.z_axis.z, &v, zero),
        }
    }

    /// The image of the point `v`.
    pub fn transform_point(&self, v: Vec3) -> (r: Vec3)
        ensures
            r@ == m4_transform_point(self@, v@),
    {
        Vec3 {
            x: row_by_vector(self.x_axis.x, self.y_axis.x, self.z_axis.x, &v, self.w_axis.x),
            y: row_by_vector(self.x_axis.y, self.y_axis.y, self.z_axis.y, &v, self.w_axis.y),
            z: row_by_vector(self.x_axis.z, self.y_axis.z, self.z_axis.z, &v, self.w_axis.z),
        }
    }

    /// The transformation that applies `rhs` first and `self` second.
    pub fn mul_mat4(&self, rhs: &Mat4) -> (m: Mat4)
        ensures
            m@ == m4_mul(self@, rhs@),
    {
        Mat4 {
            x_axis: self.transform_vector(rhs.x_axis),
            y_axis: self.transform_vector(rhs.y_axis),
            z_axis: self.transform_vector(rhs.z_axis),
            w_axis: self.transform_point(rhs.w_axis),
        }
    }
}

} // verus!
