//! Materials and the shapes that carry them: spheres for the ray tracer and
//! indexed triangles for the rasterizer.
use crate::arith::{div_toward_zero, div_tz, isqrt, isqrt_u128, lemma_mul_bound};
use crate::color::Color;
use crate::fixed::{saturate, saturate_wide, Fixed, MAX_RAW, ONE_RAW};
use crate::vector::{v3_dot_raw, Vec3, V3};
use vstd::prelude::*;

verus! {

/// How a surface looks: its color, how sharply it shines, and how much of its
/// color is a reflection.
#[derive(Clone, Copy, Debug)]
pub struct Material {
    /// The base color.
    pub color: Color,
    /// The exponent of the specular highlight; without one there is none.
    pub shininess: Option<Fixed>,
    /// The share of the color that comes from the reflected ray, between zero
    /// and one; without it nothing is reflected.
    pub reflectiveness: Option<Fixed>,
}

impl Default for Material {
    /// A white material that neither shines nor reflects.
    fn default() -> (m: Material)
        ensures
            m.color == (Color { r: 255, g: 255, b: 255 }),
            m.shininess is None,
            m.reflectiveness is None,
    {
        Material { color: Color::white(), shininess: None, reflectiveness: None }
    }
}

impl From<Color> for Material {
    /// A material of the given color that neither shines nor reflects.
    fn from(color: Color) -> (m: Material) {
        Material { color, shininess: None, reflectiveness: None }
    }
}

impl vstd::std_specs::convert::FromSpecImpl<Color> for Material {
    open spec fn obeys_from_spec() -> bool {
        true
    }

    open spec fn from_spec(color: Color) -> Material {
        Material { color, shininess: None, reflectiveness: None }
    }
}

impl Material {
    /// The material with the given properties.
    pub fn new(color: Color, shininess: Option<Fixed>, reflectiveness: Option<Fixed>) -> (m: Material)
        ensures
            m == (Material { color, shininess, reflectiveness }),
    {
        Material { color, shininess, reflectiveness }
    }

    /// The base color.
    pub fn get_color(&self) -> (c: Color)
        ensures
            c == self.color,
    {
        self.color
    }

    /// The specular exponent, if any.
    pub fn get_shininess(&self) -> (s: Option<Fixed>)
        ensures
            s == self.shininess,
    {
        self.shininess
    }

    /// The reflected share, if any.
    pub fn get_reflectiveness(&self) -> (r: Option<Fixed>)
        ensures
            r == self.reflectiveness,
    {
        self.reflectiveness
    }
}

/// The exact componentwise difference of two vectors.
pub open spec fn v3_diff(a: V3, b: V3) -> V3 {
    V3 { x: a.x - b.x, y: a.y - b.y, z: a.z - b.z }
}

/// The coefficients `(a, b, c)` of the quadratic `a * t * t + b * t + c == 0`
/// whose roots are the parameters at which the ray `origin + t * direction`
/// meets the sphere: with `co` the vector from the center to the origin,
/// `a = dot(d, d)`, `b = 2 * dot(co, d)` and `c = dot(co, co) - r * r`, all
/// exact on the squared raw scale.
pub open spec fn sphere_quadratic(center: V3, radius: int, origin: V3, direction: V3) -> (
    int,
    int,
    int,
) {
    let co = v3_diff(origin, center);
    (
        v3_dot_raw(direction, direction),
        2 * v3_dot_raw(co, direction),
        v3_dot_raw(co, co) - radius * radius,
    )
}

/// The discriminant `b * b - 4 * a * c` of the quadratic of a ray and a sphere.
pub open spec fn sphere_discriminant(center: V3, radius: int, origin: V3, direction: V3) -> int {
    let (a, b, c) = sphere_quadratic(center, radius, origin, direction);
    b * b - 4 * a * c
}

/// The raw value of the root `(-b + s) / (2 * a)`, rounded toward zero and
/// saturated, where `s` is plus or minus the square root of the discriminant
/// and `unit` is the raw length that stands for one in the direction of the
/// ray: a direction on the common scale has the unit of the raw one.
pub open spec fn quadratic_root(a: int, b: int, s: int, unit: int) -> int {
    saturate(div_tz((-b + s) * unit, 2 * a))
}

/// The two parameters at which a ray meets a sphere, the larger first. There
/// are none when the discriminant is negative, and none for a ray without
/// direction. The square root is rounded down to a whole raw unit.
pub open spec fn sphere_roots(
    center: V3,
    radius: int,
    origin: V3,
    direction: V3,
    unit: int,
) -> Option<(int, int)> {
    let (a, b, c) = sphere_quadratic(center, radius, origin, direction);
    let disc = b * b - 4 * a * c;
    if a == 0 || disc < 0 {
        None
    } else {
        let s = isqrt(disc);
        Some((quadratic_root(a, b, s, unit), quadratic_root(a, b, -s, unit)))
    }
}

/// The exact cross product of the raw components.
pub open spec fn v3_cross_raw(a: V3, b: V3) -> V3 {
    V3 { x: a.y * b.z - a.z * b.y, y: a.z * b.x - a.x * b.z, z: a.x * b.y - a.y * b.x }
}

/// How close the line of a ray comes to a point: the square of the distance
/// from `center` to the line through `origin` along `direction`, times the
/// square of the length of `direction`. It is the squared length of the cross
/// product of the direction with the vector from the center to the origin.
pub open spec fn closest_approach(center: V3, origin: V3, direction: V3) -> int {
    let k = v3_cross_raw(v3_diff(origin, center), direction);
    v3_dot_raw(k, k)
}

/// The square of the radius on the scale of [`closest_approach`]: times the
/// square of the length of `direction`.
pub open spec fn reach(radius: int, direction: V3) -> int {
    radius * radius * v3_dot_raw(direction, direction)
}

proof fn lemma_square_of_difference(u: int, v: int)
    ensures
        (u - v) * (u - v) == u * u - 2 * (u * v) + v * v,
{
    assert((u - v) * (u - v) == u * u - 2 * (u * v) + v * v) by (nonlinear_arith);
}

proof fn lemma_products_commute(a: int, b: int, c: int, d: int)
    ensures
        (a * b) * (c * d) == (a * d) * (c * b),
        (a * b) * (a * b) == (a * a) * (b * b),
{
    assert((a * b) * (c * d) == (a * d) * (c * b)) by (nonlinear_arith);
    assert((a * b) * (a * b) == (a * a) * (b * b)) by (nonlinear_arith);
}

proof fn lemma_product_of_sums(a1: int, a2: int, a3: int, b1: int, b2: int, b3: int)
    ensures
        (a1 + a2 + a3) * (b1 + b2 + b3) == a1 * b1 + a1 * b2 + a1 * b3 + a2 * b1 + a2 * b2 + a2
            * b3 + a3 * b1 + a3 * b2 + a3 * b3,
{
    assert((a1 + a2 + a3) * (b1 + b2 + b3) == a1 * b1 + a1 * b2 + a1 * b3 + a2 * b1 + a2 * b2 + a2
        * b3 + a3 * b1 + a3 * b2 + a3 * b3) by (nonlinear_arith);
}

/// The squared length of a cross product is the product of the squared
/// lengths less the square of the dot product.
pub proof fn lemma_cross_length(a: V3, b: V3)
    ensures
        v3_dot_raw(v3_cross_raw(a, b), v3_cross_raw(a, b)) == v3_dot_raw(a, a) * v3_dot_raw(b, b)
            - v3_dot_raw(a, b) * v3_dot_raw(a, b),
{
    let (ax, ay, az) = (a.x, a.y, a.z);
    let (bx, by, bz) = (b.x, b.y, b.z);
    // the squares of the three components of the cross product
    lemma_square_of_difference(ay * bz, az * by);
    lemma_square_of_difference(az * bx, ax * bz);
    lemma_square_of_difference(ax * by, ay * bx);
    // each square of a product is a product of squares
    lemma_products_commute(ay, bz, ay, bz);
    lemma_products_commute(az, by, az, by);
    lemma_products_commute(az, bx, az, bx);
    lemma_products_commute(ax, bz, ax, bz);
    lemma_products_commute(ax, by, ax, by);
    lemma_products_commute(ay, bx, ay, bx);
    lemma_products_commute(ax, bx, ax, bx);
    lemma_products_commute(ay, by, ay, by);
    lemma_products_commute(az, bz, az, bz);
    // each mixed product is a product of two terms of the dot product
    lemma_products_commute(ay, bz, az, by);
    lemma_products_commute(az, bx, ax, bz);
    lemma_products_commute(ax, by, ay, bx);
    // the two products of sums
    lemma_product_of_sums(ax * ax, ay * ay, az * az, bx * bx, by * by, bz * bz);
    lemma_product_of_sums(ax * bx, ay * by, az * bz, ax * bx, ay * by, az * bz);
}

/// The discriminant compares the closest approach of the ray with the
/// radius: it is four times the difference of the two on their common scale.
pub proof fn lemma_discriminant_is_gap(center: V3, radius: int, origin: V3, direction: V3)
    ensures
        sphere_discriminant(center, radius, origin, direction) == 4 * (reach(radius, direction)
            - closest_approach(center, origin, direction)),
{
    let co = v3_diff(origin, center);
    lemma_cross_length(co, direction);
    let a = v3_dot_raw(direction, direction);
    let h = v3_dot_raw(co, direction);
    let cc = v3_dot_raw(co, co);
    let rr = radius * radius;
    assert((2 * h) * (2 * h) - 4 * a * (cc - rr) == 4 * (rr * a - (cc * a - h * h)))
        by (nonlinear_arith);
}

/// Whether there are roots and the two are equal.
pub open spec fn is_double_root(roots: Option<(int, int)>) -> bool {
    match roots {
        Some(t) => t.0 == t.1,
        None => false,
    }
}

/// A ray whose closest approach to the center of a sphere is exactly the
/// radius touches the sphere: its two roots are equal. A ray whose closest
/// approach is larger than the radius misses the sphere: it has no roots.
pub proof fn lemma_tangent_and_miss(
    center: V3,
    radius: int,
    origin: V3,
    direction: V3,
    unit: int,
)
    ensures
        closest_approach(center, origin, direction) == reach(radius, direction) && v3_dot_raw(
            direction,
            direction,
        ) != 0 ==> is_double_root(sphere_roots(center, radius, origin, direction, unit)),
        closest_approach(center, origin, direction) > reach(radius, direction) ==> sphere_roots(
            center,
            radius,
            origin,
            direction,
            unit,
        ) is None,
{
    lemma_discriminant_is_gap(center, radius, origin, direction);
    crate::arith::lemma_isqrt_is(0, 0);
}

/// The raw values of a pair of roots.
pub open spec fn roots_view(r: Option<(Fixed, Fixed)>) -> Option<(int, int)> {
    match r {
        Some(t) => Some((t.0@, t.1@)),
        None => None,
    }
}

/// A sphere.
#[derive(Clone, Copy, Debug)]
pub struct Sphere {
    pub center: Vec3,
    pub radius: Fixed,
    pub material: Material,
}

impl Default for Sphere {
    /// The unit sphere at the origin in the default material.
    fn default() -> (s: Sphere)
        ensures
            s.center@ == (V3 { x: 0, y: 0, z: 0 }),
            s.radius@ == ONE_RAW,
            s.material.color == (Color { r: 255, g: 255, b: 255 }),
            s.material.shininess is None,
            s.material.reflectiveness is None,
    {
        Sphere { center: Vec3::zero(), radius: Fixed::one(), material: Material::default() }
    }
}

impl Sphere {
    /// The sphere with the given center, radius and material.
    pub fn new(center: Vec3, radius: Fixed, material: Material) -> (s: Sphere)
        ensures
            s == (Sphere { center, radius, material }),
    {
        Sphere { center, radius, material }
    }

    /// The center.
    pub fn get_center(&self) -> (c: Vec3)
        ensures
            c == self.center,
    {
        self.center
    }

    /// The radius.
    pub fn get_radius(&self) -> (r: Fixed)
        ensures
            r == self.radius,
    {
        self.radius
    }

    /// The material.
    pub fn get_material(&self) -> (m: Material)
        ensures
            m == self.material,
    {
        self.material
    }

    /// The parameters at which the ray from `origin` along `direction` meets
    /// the sphere, the larger first; they may be equal, and either may be
    /// negative. `None` when the ray misses the sphere or has no direction.
    pub fn intersect_ray(&self, origin: Vec3, direction: Vec3) -> (r: Option<(Fixed, Fixed)>)
        ensures
            roots_view(r) == sphere_roots(
                self.center@,
                self.radius@,
                origin@,
                direction@,
                ONE_RAW as int,
            ),
    {
        self.intersect_scaled_ray(origin, direction, Fixed::one())
    }

    /// The parameters at which the ray from `origin` along `direction` meets
    /// the sphere, where `unit` is the length that stands for one in the
    /// direction: the parameter one is the point `direction / unit` away from
    /// the origin. A direction that is held on a finer scale than positions
    /// comes with a larger unit.
    pub fn intersect_scaled_ray(&self, origin: Vec3, direction: Vec3, unit: Fixed) -> (r: Option<
        (Fixed, Fixed),
    >)
        ensures
            roots_view(r) == sphere_roots(
                self.center@,
                self.radius@,
                origin@,
                direction@,
                unit@,
            ),
    {
        let one = unit.raw();
        let rad = self.radius.raw();
        let cox: i64 = origin.x.raw() - self.center.x.raw();
        let coy: i64 = origin.y.raw() - self.center.y.raw();
        let coz: i64 = origin.z.raw() - self.center.z.raw();
        let dx = direction.x.raw();
        let dy = direction.y.raw();
        let dz = direction.z.raw();
        proof {
            let m = MAX_RAW as int;
            lemma_mul_bound(dx as int, dx as int, m, m);
            lemma_mul_bound(dy as int, dy as int, m, m);
            lemma_mul_bound(dz as int, dz as int, m, m);
            lemma_mul_bound(cox as int, dx as int, 2 * m, m);
            lemma_mul_bound(coy as int, dy as int, 2 * m, m);
            lemma_mul_bound(coz as int, dz as int, 2 * m, m);
            lemma_mul_bound(cox as int, cox as int, 2 * m, 2 * m);
            lemma_mul_bound(coy as int, coy as int, 2 * m, 2 * m);
            lemma_mul_bound(coz as int, coz as int, 2 * m, 2 * m);
            lemma_mul_bound(rad as int, rad as int, m, m);
            assert(m * m == 0x1000_0000_0000_0000) by (nonlinear_arith)
                requires
                    m == 1073741824,
            ;
            assert((2 * m) * m == 0x2000_0000_0000_0000) by (nonlinear_arith)
                requires
                    m == 1073741824,
            ;
            assert((2 * m) * (2 * m) == 0x4000_0000_0000_0000) by (nonlinear_arith)
                requires
                    m == 1073741824,
            ;
            assert(dx * dx >= 0 && dy * dy >= 0 && dz * dz >= 0) by (nonlinear_arith);
            assert(cox * cox >= 0 && coy * coy >= 0 && coz * coz >= 0) by (nonlinear_arith);
            assert(rad * rad >= 0) by (nonlinear_arith);
        }
        let a: i128 = dx as i128 * dx as i128 + dy as i128 * dy as i128 + dz as i128 * dz as i128;
        let h: i128 = cox as i128 * dx as i128 + coy as i128 * dy as i128 + coz as i128 * dz as i128;
        let c: i128 = cox as i128 * cox as i128 + coy as i128 * coy as i128 + coz as i128
            * coz as i128 - rad as i128 * rad as i128;
        proof {
            lemma_mul_bound(h as int, h as int, 0x6000_0000_0000_0000, 0x6000_0000_0000_0000);
            lemma_mul_bound(a as int, c as int, 0x3000_0000_0000_0000, 0xc000_0000_0000_0000);
            assert(0x6000_0000_0000_0000int * 0x6000_0000_0000_0000int
                == 0x2400_0000_0000_0000_0000_0000_0000_0000int) by (nonlinear_arith);
            assert(0x3000_0000_0000_0000int * 0xc000_0000_0000_0000int
                == 0x2400_0000_0000_0000_0000_0000_0000_0000int) by (nonlinear_arith);
        }
        // a quarter of the discriminant, which fits where the whole may not
        let quarter: i128 = h * h - a * c;
        let b: i128 = 2 * h;
        proof {
            assert(b * b - 4 * a * c == 4 * quarter) by (nonlinear_arith)
                requires
                    b == 2 * h,
                    quarter == h * h - a * c,
            ;
        }
        if a == 0 || quarter < 0 {
            return None;
        }
        proof {
            // With a non-negative discriminant, `a * c <= h * h`.
            assert(a * c >= -(0x3000_0000_0000_0000int * 0x1000_0000_0000_0000int))
                by (nonlinear_arith)
                requires
                    0 <= a <= 0x3000_0000_0000_0000,
                    c >= -0x1000_0000_0000_0000,
            ;
            assert(0x3000_0000_0000_0000int * 0x1000_0000_0000_0000int
                == 0x0300_0000_0000_0000_0000_0000_0000_0000int) by (nonlinear_arith);
        }
        let wide: u128 = 4 * (quarter as u128);
        let s = isqrt_u128(wide);
        let two_a: i128 = 2 * a;
        proof {
            lemma_mul_bound(-b + s, one as int, 0x2_0000_0000_0000_0000, MAX_RAW as int);
            lemma_mul_bound(-b - s, one as int, 0x2_0000_0000_0000_0000, MAX_RAW as int);
            assert(0x2_0000_0000_0000_0000 * MAX_RAW == 0x8000_0000_0000_0000_0000_0000int)
                by (nonlinear_arith);
        }
        let t1 = div_toward_zero((-b + s as i128) * one as i128, two_a);
        let t2 = div_toward_zero((-b - s as i128) * one as i128, two_a);
        Some((Fixed::from_raw(saturate_wide(t1)), Fixed::from_raw(saturate_wide(t2))))
    }
}

/// A shape that rays can hit.
#[derive(Clone, Copy, Debug)]
pub enum Shape {
    Sphere(Sphere),
}

impl Shape {
    /// The parameters at which a ray meets the shape, as for
    /// [`sphere_roots`].
    pub open spec fn roots(self, origin: V3, direction: V3, unit: int) -> Option<(int, int)> {
        match self {
            Shape::Sphere(s) => sphere_roots(s.center@, s.radius@, origin, direction, unit),
        }
    }

    /// The center of the shape.
    pub open spec fn center(self) -> Vec3 {
        match self {
            Shape::Sphere(s) => s.center,
        }
    }

    /// The material of the shape.
    pub open spec fn material(self) -> Material {
        match self {
            Shape::Sphere(s) => s.material,
        }
    }

    /// A sphere as a shape.
    pub fn new_sphere(center: Vec3, radius: Fixed, material: Material) -> (s: Shape)
        ensures
            s == Shape::Sphere(Sphere { center, radius, material }),
    {
        Shape::Sphere(Sphere::new(center, radius, material))
    }

    /// The center.
    pub fn get_center(&self) -> (c: Vec3)
        ensures
            c == self.center(),
    {
        match self {
            Shape::Sphere(sphere) => sphere.get_center(),
        }
    }

    /// The material.
    pub fn get_material(&self) -> (m: Material)
        ensures
            m == self.material(),
    {
        match self {
            Shape::Sphere(sphere) => sphere.get_material(),
        }
    }

    /// The parameters at which the ray from `origin` along `direction` meets
    /// the shape, the larger first, or `None` when it misses.
    pub fn intersect_ray(&self, origin: Vec3, direction: Vec3) -> (r: Option<(Fixed, Fixed)>)
        ensures
            roots_view(r) == self.roots(origin@, direction@, ONE_RAW as int),
    {
        self.intersect_scaled_ray(origin, direction, Fixed::one())
    }

    /// The parameters at which the ray from `origin` along `direction` meets
    /// the shape, where `unit` is the length that stands for one in the
    /// direction.
    pub fn intersect_scaled_ray(&self, origin: Vec3, direction: Vec3, unit: Fixed) -> (r: Option<
        (Fixed, Fixed),
    >)
        ensures
            roots_view(r) == self.roots(origin@, direction@, unit@),
    {
        match self {
            Shape::Sphere(sphere) => sphere.intersect_scaled_ray(origin, direction, unit),
        }
    }
}

/// A triangle of a mesh: the indices of its three vertices in the vertex list
/// of its model, and its material.
#[derive(Clone, Copy, Debug)]
pub struct Triangle {
    pub vertices: [usize; 3],
    pub material: Material,
}

impl Default for Triangle {
    /// The triangle of the first three vertices in the default material.
    fn default() -> (t: Triangle)
        ensures
            t.vertices@ == seq![0usize, 1usize, 2usize],
            t.material.color == (Color { r: 255, g: 255, b: 255 }),
            t.material.shininess is None,
            t.material.reflectiveness is None,
    {
        Triangle { vertices: [0, 1, 2], material: Material::default() }
    }
}

impl Triangle {
    /// The triangle of the vertices with the indices `a`, `b` and `c`.
    pub fn new(a: usize, b: usize, c: usize, material: Material) -> (t: Triangle)
        ensures
            t.vertices@ == seq![a, b, c],
            t.material == material,
    {
        Triangle { vertices: [a, b, c], material }
    }

    /// The indices of the three vertices.
    pub fn get_vertices(&self) -> (v: &[usize; 3])
        ensures
            *v == self.vertices,
    {
        &self.vertices
    }

    /// The material.
    pub fn get_material(&self) -> (m: Material)
        ensures
            m == self.material,
    {
        self.material
    }
}

} // verus!
