//! Clipping of triangles against planes: what of a triangle lies in front of a
//! plane, as a list of triangles.
use crate::arith::{div_toward_zero, div_tz, lemma_mul_bound};
use crate::fixed::{saturate, saturate_wide, Fixed, MAX_RAW};
use crate::math::{plane_signed_distance, Plane};
use crate::shapes::Material;
use crate::vector::{Vec3, V3};
use vstd::prelude::*;

verus! {

/// The model of a triangle in space: its three corners in order and its
/// material.
pub struct Patch {
    pub a: V3,
    pub b: V3,
    pub c: V3,
    pub material: Material,
}

/// A triangle in space, given by its corners themselves.
#[derive(Clone, Copy, Debug)]
pub struct Facet {
    pub a: Vec3,
    pub b: Vec3,
    pub c: Vec3,
    pub material: Material,
}

impl View for Facet {
    type V = Patch;

    open spec fn view(&self) -> Patch {
        Patch { a: self.a@, b: self.b@, c: self.c@, material: self.material }
    }
}

/// The models of a sequence of triangles.
pub open spec fn patches_of(facets: Seq<Facet>) -> Seq<Patch> {
    Seq::new(facets.len(), |i: int| facets[i]@)
}

/// One coordinate of the point at which the segment from `a` to `b` crosses
/// a plane from which its ends have the signed distances `da` and `db`:
/// `a + (b - a) * da / (da - db)`, the quotient rounded toward zero.
pub open spec fn cut_coordinate(a: int, b: int, da: int, db: int) -> int {
    saturate(a + div_tz((b - a) * da, da - db))
}

/// The point at which the segment from `a` to `b` crosses a plane from which
/// its ends have the signed distances `da` and `db`.
pub open spec fn cut_point(a: V3, b: V3, da: int, db: int) -> V3 {
    V3 {
        x: cut_coordinate(a.x, b.x, da, db),
        y: cut_coordinate(a.y, b.y, da, db),
        z: cut_coordinate(a.z, b.z, da, db),
    }
}

/// What is left of a triangle whose first corner alone lies in front of the
/// plane: the triangle of that corner and the two points at which its sides
/// cross the plane.
pub open spec fn keep_corner(a: V3, b: V3, c: V3, da: int, db: int, dc: int, m: Material) -> Seq<
    Patch,
> {
    seq![Patch { a, b: cut_point(a, b, da, db), c: cut_point(a, c, da, dc), material: m }]
}

/// What is left of a triangle whose last corner alone lies behind the plane:
/// the quadrangle of the two other corners and the two points at which the
/// sides to the last corner cross the plane, as two triangles.
pub open spec fn drop_corner(a: V3, b: V3, c: V3, da: int, db: int, dc: int, m: Material) -> Seq<
    Patch,
> {
    let bc = cut_point(b, c, db, dc);
    let ac = cut_point(a, c, da, dc);
    seq![Patch { a, b, c: bc, material: m }, Patch { a, b: bc, c: ac, material: m }]
}

/// What of a triangle lies in front of a plane, where a corner counts as in
/// front when its signed distance is not negative. A triangle in front is
/// kept as it is and a triangle behind is dropped. Of a triangle that the
/// plane crosses the part in front is kept: one triangle when one corner is
/// in front, two when two are. The corners keep their sense of rotation.
pub open spec fn clip_patch(p: Patch, normal: V3, distance: int) -> Seq<Patch> {
    let da = plane_signed_distance(normal, distance, p.a);
    let db = plane_signed_distance(normal, distance, p.b);
    let dc = plane_signed_distance(normal, distance, p.c);
    let m = p.material;
    if da >= 0 {
        if db >= 0 {
            if dc >= 0 {
                seq![p]
            } else {
                drop_corner(p.a, p.b, p.c, da, db, dc, m)
            }
        } else {
            if dc >= 0 {
                drop_corner(p.c, p.a, p.b, dc, da, db, m)
            } else {
                keep_corner(p.a, p.b, p.c, da, db, dc, m)
            }
        }
    } else {
        if db >= 0 {
            if dc >= 0 {
                drop_corner(p.b, p.c, p.a, db, dc, da, m)
            } else {
                keep_corner(p.b, p.c, p.a, db, dc, da, m)
            }
        } else {
            if dc >= 0 {
                keep_corner(p.c, p.a, p.b, dc, da, db, m)
            } else {
                Seq::empty()
            }
        }
    }
}

/// What of the first `n` triangles of a list lies in front of a plane: the
/// parts of each, in the order of the list.
pub open spec fn clip_patches(patches: Seq<Patch>, normal: V3, distance: int, n: nat) -> Seq<Patch>
    decreases n,
{
    if n == 0 {
        Seq::empty()
    } else {
        clip_patches(patches, normal, distance, (n - 1) as nat) + clip_patch(
            patches[n - 1],
            normal,
            distance,
        )
    }
}

/// What of a list of triangles lies in front of each of the first `n` planes:
/// the list is clipped against one plane after the other.
pub open spec fn clip_against(patches: Seq<Patch>, planes: Seq<Plane>, n: nat) -> Seq<Patch>
    decreases n,
{
    if n == 0 {
        patches
    } else {
        let before = clip_against(patches, planes, (n - 1) as nat);
        clip_patches(before, planes[n - 1].normal@, planes[n - 1].distance@, before.len())
    }
}

/// A triangle whose corners all lie in front of the plane is kept as it is,
/// and one whose corners all lie behind it is dropped.
pub proof fn lemma_clip_patch_whole(p: Patch, normal: V3, distance: int)
    ensures
        plane_signed_distance(normal, distance, p.a) >= 0 && plane_signed_distance(
            normal,
            distance,
            p.b,
        ) >= 0 && plane_signed_distance(normal, distance, p.c) >= 0 ==> clip_patch(
            p,
            normal,
            distance,
        ) == seq![p],
        plane_signed_distance(normal, distance, p.a) < 0 && plane_signed_distance(
            normal,
            distance,
            p.b,
        ) < 0 && plane_signed_distance(normal, distance, p.c) < 0 ==> clip_patch(
            p,
            normal,
            distance,
        ).len() == 0,
{
}

/// The point at which a segment crosses the plane lies between its two ends
/// in every coordinate, when one end is in front of the plane and the other
/// behind it.
pub proof fn lemma_cut_between(a: int, b: int, da: int, db: int)
    requires
        -MAX_RAW <= a <= MAX_RAW,
        -MAX_RAW <= b <= MAX_RAW,
        da >= 0,
        db < 0,
    ensures
        a <= b ==> a <= cut_coordinate(a, b, da, db) <= b,
        b <= a ==> b <= cut_coordinate(a, b, da, db) <= a,
        cut_coordinate(a, b, da, db) == a + div_tz((b - a) * da, da - db),
{
    let n = da - db;
    let delta = crate::arith::abs(b - a);
    let num = delta * da;
    assert(0 <= num <= delta * n) by (nonlinear_arith)
        requires
            num == delta * da,
            0 <= da < n,
            0 <= delta,
    ;
    assert(0 <= num / n <= delta) by (nonlinear_arith)
        requires
            0 <= num <= delta * n,
            0 < n,
    ;
    if b < a {
        assert((b - a) * da == -num) by (nonlinear_arith)
            requires
                num == delta * da,
                delta == -(b - a),
        ;
    }
}

fn cut_one(a: Fixed, b: Fixed, da: Fixed, db: Fixed) -> (r: Fixed)
    requires
        da@ >= 0,
        db@ < 0,
    ensures
        r@ == cut_coordinate(a@, b@, da@, db@),
{
    let ar = a.raw();
    let br = b.raw();
    let dar = da.raw();
    let dbr = db.raw();
    proof {
        lemma_mul_bound(br - ar, dar as int, 2 * MAX_RAW, MAX_RAW as int);
    }
    let q = div_toward_zero((br as i128 - ar as i128) * dar as i128, dar as i128 - dbr as i128);
    Fixed::from_raw(saturate_wide(ar as i128 + q))
}

fn cut(a: Vec3, b: Vec3, da: Fixed, db: Fixed) -> (r: Vec3)
    requires
        da@ >= 0,
        db@ < 0,
    ensures
        r@ == cut_point(a@, b@, da@, db@),
{
    Vec3 {
        x: cut_one(a.x, b.x, da, db),
        y: cut_one(a.y, b.y, da, db),
        z: cut_one(a.z, b.z, da, db),
    }
}

fn push_kept_corner(
    out: &mut Vec<Facet>,
    a: Vec3,
    b: Vec3,
    c: Vec3,
    da: Fixed,
    db: Fixed,
    dc: Fixed,
    m: Material,
)
    requires
        da@ >= 0,
        db@ < 0,
        dc@ < 0,
    ensures
        patches_of(final(out)@) == patches_of(old(out)@) + keep_corner(
            a@,
            b@,
            c@,
            da@,
            db@,
            dc@,
            m,
        ),
{
    out.push(Facet { a, b: cut(a, b, da, db), c: cut(a, c, da, dc), material: m });
    assert(patches_of(out@) =~= patches_of(old(out)@) + keep_corner(
        a@,
        b@,
        c@,
        da@,
        db@,
        dc@,
        m,
    ));
}

fn push_dropped_corner(
    out: &mut Vec<Facet>,
    a: Vec3,
    b: Vec3,
    c: Vec3,
    da: Fixed,
    db: Fixed,
    dc: Fixed,
    m: Material,
)
    requires
        da@ >= 0,
        db@ >= 0,
        dc@ < 0,
    ensures
        patches_of(final(out)@) == patches_of(old(out)@) + drop_corner(
            a@,
            b@,
            c@,
            da@,
            db@,
            dc@,
            m,
        ),
{
    let bc = cut(b, c, db, dc);
    let ac = cut(a, c, da, dc);
    out.push(Facet { a, b, c: bc, material: m });
    out.push(Facet { a, b: bc, c: ac, material: m });
    assert(patches_of(out@) =~= patches_of(old(out)@) + drop_corner(
        a@,
        b@,
        c@,
        da@,
        db@,
        dc@,
        m,
    ));
}

/// Appends to `out` what of the triangle `f` lies in front of the plane.
pub fn clip_facet(out: &mut Vec<Facet>, f: &Facet, plane: &Plane)
    ensures
        patches_of(final(out)@) == patches_of(old(out)@) + clip_patch(
            f@,
            plane.normal@,
            plane.distance@,
        ),
{
    let da = plane.signed_distance(&f.a);
    let db = plane.signed_distance(&f.b);
    let dc = plane.signed_distance(&f.c);
    let zero = Fixed::zero();
    let m = f.material;
    let a_front = zero.le(da);
    let b_front = zero.le(db);
    let c_front = zero.le(dc);
    if a_front {
        if b_front {
            if c_front {
                out.push(*f);
            } else {
                push_dropped_corner(out, f.a, f.b, f.c, da, db, dc, m);
            }
        } else {
            if c_front {
                push_dropped_corner(out, f.c, f.a, f.b, dc, da, db, m);
            } else {
                push_kept_corner(out, f.a, f.b, f.c, da, db, dc, m);
            }
        }
    } else if b_front {
        if c_front {
            push_dropped_corner(out, f.b, f.c, f.a, db, dc, da, m);
        } else {
            push_kept_corner(out, f.b, f.c, f.a, db, dc, da, m);
        }
    } else if c_front {
        push_kept_corner(out, f.c, f.a, f.b, dc, da, db, m);
    }
}

/// What of the triangles `facets` lies in front of the plane.
pub fn clip_facets(facets: &Vec<Facet>, plane: &Plane) -> (out: Vec<Facet>)
    ensures
        patches_of(out@) == clip_patches(
            patches_of(facets@),
            plane.normal@,
            plane.distance@,
            facets@.len(),
        ),
{
    let mut out: Vec<Facet> = Vec::new();
    let mut i: usize = 0;
    while i < facets.len()
        invariant
            i <= facets@.len(),
            patches_of(out@) == clip_patches(
                patches_of(facets@),
                plane.normal@,
                plane.distance@,
                i as nat,
            ),
        decreases facets@.len() - i,
    {
        clip_facet(&mut out, &facets[i], plane);
        i = i + 1;
    }
    out
}

/// What of the triangles `facets` lies in front of every one of the planes.
pub fn clip_facets_against(facets: Vec<Facet>, planes: &Vec<Plane>) -> (out: Vec<Facet>)
    ensures
        patches_of(out@) == clip_against(patches_of(facets@), planes@, planes@.len()),
{
    let mut current = facets;
    let mut p: usize = 0;
    while p < planes.len()
        invariant
            p <= planes@.len(),
            patches_of(current@) == clip_against(patches_of(facets@), planes@, p as nat),
        decreases planes@.len() - p,
    {
        let next = clip_facets(&current, &planes[p]);
        current = next;
        p = p + 1;
    }
    current
}

} // verus!
