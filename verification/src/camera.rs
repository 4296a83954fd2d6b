//! The camera: where the viewer stands and how the view is turned.
use crate::arith::{abs, div_tz, lemma_mul_bound};
use crate::fixed::{MAX_RAW, ONE_RAW};
use crate::matrix::{
    lemma_conjugate_transposes, m4_from_rotation_translation, m4_transform_point, one_minus,
    q4_axes, q4_conjugate, q4_rotate, rescaled, row_times, Mat4, Quat, M4, Q4,
};
use crate::vector::{v3_add, v3_in_range, v3_neg, v3_sub, Vec3, V3};
use vstd::prelude::*;

verus! {

/// A camera, given by its position and its orientation.
#[derive(Clone, Copy, Debug)]
pub struct Camera {
    pub translation: Vec3,
    pub rotation: Quat,
}

impl Default for Camera {
    /// The camera at the origin that looks along the `z` axis.
    fn default() -> (c: Camera)
        ensures
            c.translation@ == (V3 { x: 0, y: 0, z: 0 }),
            c.rotation@ == (Q4 { x: 0, y: 0, z: 0, w: ONE_RAW as int }),
    {
        Camera { translation: Vec3::zero(), rotation: Quat::identity() }
    }
}

/// The matrix that takes the world to the space of a camera which stands at
/// `translation` and is turned by `rotation`: the inverse of the placement of
/// the camera. A point is moved by the negated position and then turned the
/// other way, so the matrix holds the conjugate rotation and, as its
/// translation, the negated position turned the other way.
pub open spec fn world_to_camera(rotation: Q4, translation: V3) -> M4 {
    let back = q4_conjugate(rotation);
    m4_from_rotation_translation(back, v3_neg(q4_rotate(back, translation)))
}

/// Whether a camera is small enough for its matrix to be free of saturation:
/// the components of its rotation are at most one, and its position lies
/// within 1024 of the origin in every coordinate.
pub open spec fn camera_is_small(rotation: Q4, translation: V3) -> bool {
    &&& -ONE_RAW <= rotation.x <= ONE_RAW
    &&& -ONE_RAW <= rotation.y <= ONE_RAW
    &&& -ONE_RAW <= rotation.z <= ONE_RAW
    &&& -ONE_RAW <= rotation.w <= ONE_RAW
    &&& -MAX_RAW <= 16 * translation.x <= MAX_RAW
    &&& -MAX_RAW <= 16 * translation.y <= MAX_RAW
    &&& -MAX_RAW <= 16 * translation.z <= MAX_RAW
}

proof fn lemma_entry_bound(a: int, b: int, c: int, d: int)
    requires
        -ONE_RAW <= a <= ONE_RAW,
        -ONE_RAW <= b <= ONE_RAW,
        -ONE_RAW <= c <= ONE_RAW,
        -ONE_RAW <= d <= ONE_RAW,
    ensures
        -5 * ONE_RAW <= one_minus(a * (2 * b), c * (2 * d)) <= 5 * ONE_RAW,
        -5 * ONE_RAW <= rescaled(a * (2 * b), c * (2 * d)) <= 5 * ONE_RAW,
        -5 * ONE_RAW <= rescaled(a * (2 * b), -(c * (2 * d))) <= 5 * ONE_RAW,
{
    let one = ONE_RAW as int;
    lemma_mul_bound(a, 2 * b, one, 2 * one);
    lemma_mul_bound(c, 2 * d, one, 2 * one);
    let p = a * (2 * b) + c * (2 * d);
    let m = a * (2 * b) - c * (2 * d);
    assert(one * (2 * one) == 2 * (one * one)) by (nonlinear_arith);
    assert(-4 * (one * one) <= p <= 4 * (one * one));
    assert(-4 * (one * one) <= m <= 4 * (one * one));
    lemma_div_tz_scaled(p, 4 * one);
    lemma_div_tz_scaled(m, 4 * one);
}

proof fn lemma_div_tz_scaled(p: int, k: int)
    requires
        0 <= k,
        -(k * ONE_RAW) <= p <= k * ONE_RAW,
    ensures
        -k <= div_tz(p, ONE_RAW as int) <= k,
{
    let one = ONE_RAW as int;
    let a = abs(p);
    assert(a / one <= k) by (nonlinear_arith)
        requires
            0 <= a <= k * one,
            one == 65536,
    ;
    assert(0 <= a / one) by (nonlinear_arith)
        requires
            0 <= a,
            one == 65536,
    ;
}

proof fn lemma_row_bound(a: int, b: int, c: int, v: V3)
    requires
        -5 * ONE_RAW <= a <= 5 * ONE_RAW,
        -5 * ONE_RAW <= b <= 5 * ONE_RAW,
        -5 * ONE_RAW <= c <= 5 * ONE_RAW,
        -MAX_RAW <= 16 * v.x <= MAX_RAW,
        -MAX_RAW <= 16 * v.y <= MAX_RAW,
        -MAX_RAW <= 16 * v.z <= MAX_RAW,
    ensures
        row_times(a, b, c, v, 0) == div_tz(a * v.x + b * v.y + c * v.z, ONE_RAW as int),
        row_times(a, b, c, v, -row_times(a, b, c, v, 0)) == 0,
{
    let one = ONE_RAW as int;
    let m = MAX_RAW as int;
    let bound = m / 16;
    lemma_mul_bound(a, v.x, 5 * one, bound);
    lemma_mul_bound(b, v.y, 5 * one, bound);
    lemma_mul_bound(c, v.z, 5 * one, bound);
    let p = a * v.x + b * v.y + c * v.z;
    assert((5 * one) * bound == (5 * bound) * one) by (nonlinear_arith);
    lemma_div_tz_scaled(p, 15 * bound);
}

/// The matrix of a camera takes the position of the camera to the origin.
pub proof fn lemma_camera_sees_itself_at_the_origin(rotation: Q4, translation: V3)
    requires
        camera_is_small(rotation, translation),
    ensures
        m4_transform_point(world_to_camera(rotation, translation), translation) == (V3 {
            x: 0,
            y: 0,
            z: 0,
        }),
{
    let q = q4_conjugate(rotation);
    let (x, y, z) = q4_axes(q);
    lemma_entry_bound(q.y, q.y, q.z, q.z);
    lemma_entry_bound(q.x, q.y, q.w, q.z);
    lemma_entry_bound(q.x, q.z, q.w, q.y);
    lemma_entry_bound(q.x, q.x, q.z, q.z);
    lemma_entry_bound(q.y, q.z, q.w, q.x);
    lemma_entry_bound(q.x, q.x, q.y, q.y);
    lemma_row_bound(x.x, y.x, z.x, translation);
    lemma_row_bound(x.y, y.y, z.y, translation);
    lemma_row_bound(x.z, y.z, z.z, translation);
}

/// Whether a point lies within 64 of the origin in every coordinate: near
/// enough for a camera to turn it and move it without saturation.
pub open spec fn is_near(v: V3) -> bool {
    &&& -MAX_RAW <= 256 * v.x <= MAX_RAW
    &&& -MAX_RAW <= 256 * v.y <= MAX_RAW
    &&& -MAX_RAW <= 256 * v.z <= MAX_RAW
}

proof fn lemma_rounding_of_a_sum(a: int, b: int)
    ensures
        -2 <= div_tz(a + b, ONE_RAW as int) - div_tz(a, ONE_RAW as int) - div_tz(
            b,
            ONE_RAW as int,
        ) <= 2,
{
    lemma_rounding(a);
    lemma_rounding(b);
    lemma_rounding(a + b);
}

proof fn lemma_rounding(x: int)
    ensures
        x - ONE_RAW < div_tz(x, ONE_RAW as int) * ONE_RAW < x + ONE_RAW,
{
    let m = abs(x);
    assert((m / 65536) * 65536 <= m < (m / 65536) * 65536 + 65536) by (nonlinear_arith)
        requires
            0 <= m,
    ;
}

proof fn lemma_row_of_a_sum(a: int, b: int, c: int, u: V3, t: V3, k: int)
    requires
        -5 * ONE_RAW <= a <= 5 * ONE_RAW,
        -5 * ONE_RAW <= b <= 5 * ONE_RAW,
        -5 * ONE_RAW <= c <= 5 * ONE_RAW,
        0 <= k,
        16 * (16 * k) <= MAX_RAW,
        -15 * k <= u.x <= 15 * k,
        -15 * k <= u.y <= 15 * k,
        -15 * k <= u.z <= 15 * k,
        -k <= t.x <= k,
        -k <= t.y <= k,
        -k <= t.z <= k,
    ensures
        v3_add(u, t) == (V3 { x: u.x + t.x, y: u.y + t.y, z: u.z + t.z }),
        -2 <= row_times(a, b, c, v3_add(u, t), -row_times(a, b, c, t, 0)) - row_times(
            a,
            b,
            c,
            u,
            0,
        ) <= 2,
{
    let one = ONE_RAW as int;
    let w = V3 { x: u.x + t.x, y: u.y + t.y, z: u.z + t.z };
    let pu = a * u.x + b * u.y + c * u.z;
    let pt = a * t.x + b * t.y + c * t.z;
    let pw = a * w.x + b * w.y + c * w.z;
    assert(pw == pu + pt) by (nonlinear_arith)
        requires
            pu == a * u.x + b * u.y + c * u.z,
            pt == a * t.x + b * t.y + c * t.z,
            pw == a * (u.x + t.x) + b * (u.y + t.y) + c * (u.z + t.z),
    ;
    lemma_mul_bound(a, u.x, 5 * one, 15 * k);
    lemma_mul_bound(b, u.y, 5 * one, 15 * k);
    lemma_mul_bound(c, u.z, 5 * one, 15 * k);
    lemma_mul_bound(a, t.x, 5 * one, k);
    lemma_mul_bound(b, t.y, 5 * one, k);
    lemma_mul_bound(c, t.z, 5 * one, k);
    assert((5 * one) * (15 * k) == (75 * k) * one && (5 * one) * k == (5 * k) * one)
        by (nonlinear_arith);
    lemma_div_tz_scaled(pu, 225 * k);
    lemma_div_tz_scaled(pt, 15 * k);
    lemma_div_tz_scaled(pw, 240 * k);
    lemma_rounding_of_a_sum(pu, pt);
}

/// The matrix of a camera undoes the placement of the camera, up to the
/// rounding of the rotation. A point `p` of camera space stands in the world
/// at the point that the rotation turns it to, moved by the position; the
/// matrix takes that point back to within two raw units, in every coordinate,
/// of `p` turned there and back. The translation cancels, and what remains is
/// what the rotation and its conjugate round away between them.
pub proof fn lemma_camera_undoes_its_placement(rotation: Q4, translation: V3, p: V3)
    requires
        camera_is_small(rotation, translation),
        is_near(translation),
        is_near(p),
    ensures
        ({
            let in_world = v3_add(q4_rotate(rotation, p), translation);
            let seen = m4_transform_point(world_to_camera(rotation, translation), in_world);
            let turned = q4_rotate(q4_conjugate(rotation), q4_rotate(rotation, p));
            &&& -2 <= seen.x - turned.x <= 2
            &&& -2 <= seen.y - turned.y <= 2
            &&& -2 <= seen.z - turned.z <= 2
        }),
{
    let k = MAX_RAW as int / 256;
    let q = rotation;
    let c = q4_conjugate(rotation);
    let (x, y, z) = q4_axes(q);
    let (cx, cy, cz) = q4_axes(c);
    lemma_entry_bound(q.y, q.y, q.z, q.z);
    lemma_entry_bound(q.x, q.y, q.w, q.z);
    lemma_entry_bound(q.x, q.z, q.w, q.y);
    lemma_entry_bound(q.x, q.x, q.z, q.z);
    lemma_entry_bound(q.y, q.z, q.w, q.x);
    lemma_entry_bound(q.x, q.x, q.y, q.y);
    lemma_conjugate_transposes(q);
    let u = q4_rotate(q, p);
    lemma_turned_bound(x.x, y.x, z.x, p, k);
    lemma_turned_bound(x.y, y.y, z.y, p, k);
    lemma_turned_bound(x.z, y.z, z.z, p, k);
    lemma_row_of_a_sum(cx.x, cy.x, cz.x, u, translation, k);
    lemma_row_of_a_sum(cx.y, cy.y, cz.y, u, translation, k);
    lemma_row_of_a_sum(cx.z, cy.z, cz.z, u, translation, k);
}

proof fn lemma_turned_bound(a: int, b: int, c: int, p: V3, k: int)
    requires
        -5 * ONE_RAW <= a <= 5 * ONE_RAW,
        -5 * ONE_RAW <= b <= 5 * ONE_RAW,
        -5 * ONE_RAW <= c <= 5 * ONE_RAW,
        0 <= k,
        16 * (16 * k) <= MAX_RAW,
        -k <= p.x <= k,
        -k <= p.y <= k,
        -k <= p.z <= k,
    ensures
        -15 * k <= row_times(a, b, c, p, 0) <= 15 * k,
{
    let one = ONE_RAW as int;
    lemma_mul_bound(a, p.x, 5 * one, k);
    lemma_mul_bound(b, p.y, 5 * one, k);
    lemma_mul_bound(c, p.z, 5 * one, k);
    assert((5 * one) * k == (5 * k) * one) by (nonlinear_arith);
    lemma_div_tz_scaled(a * p.x + b * p.y + c * p.z, 15 * k);
}

/// The matrix of a camera that is not turned moves every point by the negated
/// position of the camera.
pub proof fn lemma_camera_without_turn(translation: V3, p: V3)
    requires
        v3_in_range(translation),
        v3_in_range(p),
    ensures
        m4_transform_point(
            world_to_camera(Q4 { x: 0, y: 0, z: 0, w: ONE_RAW as int }, translation),
            p,
        ) == v3_sub(p, translation),
{
    let one = ONE_RAW as int;
    assert forall|x: int| #[trigger] div_tz(one * x, one) == x by {
        let a = abs(x);
        assert(abs(one * x) == one * a) by (nonlinear_arith)
            requires
                one == 65536,
                a == abs(x),
        ;
        assert((one * a) / one == a) by (nonlinear_arith)
            requires
                one == 65536,
        ;
        assert((one * x >= 0) == (x >= 0)) by (nonlinear_arith)
            requires
                one == 65536,
        ;
    }
    let q = q4_conjugate(Q4 { x: 0, y: 0, z: 0, w: one });
    assert(q.w * (2 * q.x) == 0 && q.w * (2 * q.y) == 0 && q.w * (2 * q.z) == 0)
        by (nonlinear_arith)
        requires
            q.x == 0,
            q.y == 0,
            q.z == 0,
    ;
    assert(q.x * (2 * q.x) == 0 && q.x * (2 * q.y) == 0 && q.x * (2 * q.z) == 0 && q.y * (2
        * q.y) == 0 && q.y * (2 * q.z) == 0 && q.z * (2 * q.z) == 0) by (nonlinear_arith)
        requires
            q.x == 0,
            q.y == 0,
            q.z == 0,
    ;
    assert(0int / 65536 == 0);
    let (x_axis, y_axis, z_axis) = q4_axes(q);
    assert(x_axis == (V3 { x: one, y: 0, z: 0 }));
    assert(y_axis == (V3 { x: 0, y: one, z: 0 }));
    assert(z_axis == (V3 { x: 0, y: 0, z: one }));
    let t = translation;
    assert(one * t.x + 0 * t.y + 0 * t.z == one * t.x);
    assert(0 * t.x + one * t.y + 0 * t.z == one * t.y);
    assert(0 * t.x + 0 * t.y + one * t.z == one * t.z);
    assert(one * p.x + 0 * p.y + 0 * p.z == one * p.x);
    assert(0 * p.x + one * p.y + 0 * p.z == one * p.y);
    assert(0 * p.x + 0 * p.y + one * p.z == one * p.z);
}

impl Camera {
    /// The transformation from world space to the space of the camera: the
    /// inverse of the placement of the camera in the world, which turns a
    /// point of camera space by the rotation and moves it by the position.
    pub open spec fn matrix(self) -> M4 {
        world_to_camera(self.rotation@, self.translation@)
    }

    /// The camera at `translation` turned by `rotation`.
    pub fn new(translation: Vec3, rotation: Quat) -> (c: Camera)
        ensures
            c == (Camera { translation, rotation }),
    {
        Camera { translation, rotation }
    }

    /// The camera at `translation` that is not turned.
    pub fn from_translation(translation: Vec3) -> (c: Camera)
        ensures
            c.translation == translation,
            c.rotation@ == (Q4 { x: 0, y: 0, z: 0, w: ONE_RAW as int }),
    {
        Camera { translation, rotation: Quat::identity() }
    }

    /// The position.
    pub fn get_translation(&self) -> (t: Vec3)
        ensures
            t == self.translation,
    {
        self.translation
    }

    /// The orientation.
    pub fn get_rotation(&self) -> (r: Quat)
        ensures
            r == self.rotation,
    {
        self.rotation
    }

    /// The transformation from world space to the space of the camera.
    pub fn get_matrix(&self) -> (m: Mat4)
        ensures
            m@ == self.matrix(),
    {
        let back = self.rotation.conjugate();
        Mat4::from_rotation_translation(back, back.rotate(self.translation).neg())
    }
}

} // verus!
