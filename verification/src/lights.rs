//! Lights and the Phong lighting model with hard shadows.
use crate::arith::{
    div_toward_zero, div_tz, isqrt, isqrt_u128, lemma_div_tz_bound, lemma_isqrt_positive,
    lemma_mul_bound,
};
use crate::fixed::{product, saturate, saturate_wide, Fixed, MAX_RAW, ONE_RAW};
use crate::ray::{
    does_intersect, ray_is_blocked, reflect, reflect_ray, shape_is_hit, SURFACE_EPSILON_RAW,
};
use crate::shapes::Shape;
use crate::vector::{v3_dot_raw, v3_length_raw, v3_sub, Vec3, V3};
use vstd::prelude::*;

verus! {

/// The raw value of `base` to the power `n`, each multiplication rounded
/// toward zero.
pub open spec fn fixed_pow(base: int, n: nat) -> int
    decreases n,
{
    if n == 0 {
        ONE_RAW as int
    } else {
        product(fixed_pow(base, (n - 1) as nat), base)
    }
}

/// The raw square root of the number with raw value `a`, rounded down, and
/// zero for a negative number.
pub open spec fn fixed_sqrt(a: int) -> int {
    if a <= 0 {
        0
    } else {
        saturate(isqrt(a * ONE_RAW))
    }
}

/// What the fraction of an exponent adds to a power. `acc` is the power so
/// far and `base` the root that the last step took; each step takes the
/// square root of `base` and multiplies it in when the fraction holds the
/// binary place of the weight `weight`, which is then halved.
pub open spec fn root_pow(acc: int, base: int, fraction: int, weight: int) -> int
    decreases weight,
{
    if weight <= 0 {
        acc
    } else {
        let root = fixed_sqrt(base);
        if fraction >= weight {
            root_pow(product(acc, root), root, fraction - weight, weight / 2)
        } else {
            root_pow(acc, root, fraction, weight / 2)
        }
    }
}

/// The raw value of `base` to the power with the raw value `exponent`: the
/// power of the whole part of the exponent, times one root of the base for
/// every binary place of its fraction. An exponent that is not positive gives
/// one.
pub open spec fn fixed_power(base: int, exponent: int) -> int {
    if exponent <= 0 {
        ONE_RAW as int
    } else {
        root_pow(
            fixed_pow(base, (exponent / (ONE_RAW as int)) as nat),
            base,
            exponent % (ONE_RAW as int),
            ONE_RAW / 2,
        )
    }
}

/// The raw cosine of the angle between two vectors with the positive dot
/// product `dot` and the lengths `len_a` and `len_b`, at most one.
pub open spec fn cosine(dot: int, len_a: int, len_b: int) -> int {
    let c = div_tz(dot * ONE_RAW, len_a * len_b);
    if c > ONE_RAW {
        ONE_RAW as int
    } else {
        c
    }
}

/// The diffuse term of a light of the given intensity: for a surface with the
/// normal `n` and the direction `l` to the light,
/// `intensity * dot(n, l) / (|n| * |l|)` when the dot product is positive, and
/// zero when the light is behind the surface.
pub open spec fn diffuse(intensity: int, n: V3, l: V3) -> int {
    let d = v3_dot_raw(n, l);
    if d > 0 {
        saturate(div_tz(intensity * d, v3_length_raw(n) * v3_length_raw(l)))
    } else {
        0
    }
}

/// The specular term of a light: with `r` the direction `l` to the light
/// mirrored at the normal `n` and `v` the direction to the viewer,
/// `intensity * (dot(r, v) / (|r| * |v|)) ^ shininess` when the dot product is
/// positive, where the shininess may have a fraction. It is zero without a
/// shininess and when the mirrored ray points away from the viewer.
pub open spec fn specular(intensity: int, n: V3, l: V3, v: V3, shininess: Option<Fixed>) -> int {
    match shininess {
        None => 0,
        Some(s) => {
            let r = reflect(l, n);
            let d = v3_dot_raw(r, v);
            if d > 0 {
                product(
                    intensity,
                    fixed_power(cosine(d, v3_length_raw(r), v3_length_raw(v)), s@),
                )
            } else {
                0
            }
        },
    }
}

/// The sum of the diffuse and the specular term, saturated.
pub open spec fn diffuse_specular_sum(
    intensity: int,
    n: V3,
    l: V3,
    v: V3,
    shininess: Option<Fixed>,
) -> int {
    saturate(diffuse(intensity, n, l) + specular(intensity, n, l, v, shininess))
}

/// The smallest parameter at which a ray that leaves a surface can be blocked:
/// the first raw value above the surface epsilon.
pub open spec fn shadow_start() -> int {
    SURFACE_EPSILON_RAW + 1
}

/// The largest parameter below infinity.
pub open spec fn shadow_end() -> int {
    MAX_RAW - 1
}

/// What one light adds to the lighting of the point `point` of a surface with
/// the normal `normal`, seen from the direction `view`. An ambient light adds
/// its intensity. A point light and a directional light add nothing when a
/// shape blocks the ray from the point toward the light: for a point light a
/// shape between the point and the light, at a parameter above the surface
/// epsilon and at most one; for a directional light a shape anywhere along the
/// direction above the surface epsilon. Otherwise they add their diffuse and
/// specular terms.
pub open spec fn light_contribution(
    light: Light,
    point: V3,
    normal: V3,
    view: V3,
    shininess: Option<Fixed>,
    shapes: Seq<Shape>,
) -> int {
    match light {
        Light::Ambient(a) => a.intensity@,
        Light::Point(p) => {
            let l = v3_sub(p.position@, point);
            if ray_is_blocked(shapes, point, l, ONE_RAW as int, shadow_start(), ONE_RAW as int) {
                0
            } else {
                diffuse_specular_sum(p.intensity@, normal, l, view, shininess)
            }
        },
        Light::Directional(d) => {
            let l = d.direction@;
            if ray_is_blocked(shapes, point, l, ONE_RAW as int, shadow_start(), shadow_end()) {
                0
            } else {
                diffuse_specular_sum(d.intensity@, normal, l, view, shininess)
            }
        },
    }
}

/// The saturated sum of what the first `n` lights add.
pub open spec fn lighting_among(
    lights: Seq<Light>,
    point: V3,
    normal: V3,
    view: V3,
    shininess: Option<Fixed>,
    shapes: Seq<Shape>,
    n: nat,
) -> int
    decreases n,
{
    if n == 0 {
        0
    } else {
        saturate(
            lighting_among(lights, point, normal, view, shininess, shapes, (n - 1) as nat)
                + light_contribution(lights[n - 1], point, normal, view, shininess, shapes),
        )
    }
}

/// The lighting of a point: the sum of what all the lights add. It is not
/// limited to one.
pub open spec fn lighting(
    lights: Seq<Light>,
    point: V3,
    normal: V3,
    view: V3,
    shininess: Option<Fixed>,
    shapes: Seq<Shape>,
) -> int {
    lighting_among(lights, point, normal, view, shininess, shapes, lights.len())
}

/// Whether every light of the list is an ambient light.
pub open spec fn all_ambient(lights: Seq<Light>) -> bool {
    forall|i: int| 0 <= i < lights.len() ==> (#[trigger] lights[i]) is Ambient
}

/// The saturated sum of the intensities of the first `n` lights of a list of
/// ambient lights.
pub open spec fn ambient_total(lights: Seq<Light>, n: nat) -> int
    decreases n,
{
    if n == 0 {
        0
    } else {
        saturate(ambient_total(lights, (n - 1) as nat) + lights[n - 1]->Ambient_0.intensity@)
    }
}

/// Under ambient lights alone the lighting is the same everywhere: the sum of
/// their intensities, whatever the point, the normal, the viewer, the
/// shininess and the shapes around.
pub proof fn lemma_ambient_lighting(
    lights: Seq<Light>,
    point: V3,
    normal: V3,
    view: V3,
    shininess: Option<Fixed>,
    shapes: Seq<Shape>,
    n: nat,
)
    requires
        all_ambient(lights),
        n <= lights.len(),
    ensures
        lighting_among(lights, point, normal, view, shininess, shapes, n) == ambient_total(
            lights,
            n,
        ),
    decreases n,
{
    if n > 0 {
        lemma_ambient_lighting(lights, point, normal, view, shininess, shapes, (n - 1) as nat);
    }
}

/// A point light adds nothing to a point when a shape lies between the two:
/// when the ray from the point to the light meets one of the shapes above the
/// surface epsilon and at or before the light.
pub proof fn lemma_blocked_point_light(
    light: PointLight,
    point: V3,
    normal: V3,
    view: V3,
    shininess: Option<Fixed>,
    shapes: Seq<Shape>,
    k: int,
)
    requires
        0 <= k < shapes.len(),
        shape_is_hit(
            shapes[k],
            point,
            v3_sub(light.position@, point),
            ONE_RAW as int,
            shadow_start(),
            ONE_RAW as int,
        ),
    ensures
        light_contribution(Light::Point(light), point, normal, view, shininess, shapes) == 0,
{
}

/// A directional light adds nothing to a point when a shape lies anywhere
/// along its direction from the point, above the surface epsilon.
pub proof fn lemma_blocked_directional_light(
    light: DirectionalLight,
    point: V3,
    normal: V3,
    view: V3,
    shininess: Option<Fixed>,
    shapes: Seq<Shape>,
    k: int,
)
    requires
        0 <= k < shapes.len(),
        shape_is_hit(
            shapes[k],
            point,
            light.direction@,
            ONE_RAW as int,
            shadow_start(),
            shadow_end(),
        ),
    ensures
        light_contribution(Light::Directional(light), point, normal, view, shininess, shapes) == 0,
{
}

/// Two vectors with a dot product other than zero both have a length of at
/// least one raw unit.
pub proof fn lemma_nonzero_lengths(a: V3, b: V3)
    requires
        v3_dot_raw(a, b) != 0,
    ensures
        v3_length_raw(a) >= 1,
        v3_length_raw(b) >= 1,
{
    lemma_nonzero_length(a, b);
    assert(v3_dot_raw(b, a) == v3_dot_raw(a, b)) by (nonlinear_arith);
    lemma_nonzero_length(b, a);
}

proof fn lemma_nonzero_length(a: V3, b: V3)
    requires
        v3_dot_raw(a, b) != 0,
    ensures
        v3_length_raw(a) >= 1,
{
    assert(a.x != 0 || a.y != 0 || a.z != 0) by (nonlinear_arith)
        requires
            a.x * b.x + a.y * b.y + a.z * b.z != 0,
    ;
    assert(a.x * a.x + a.y * a.y + a.z * a.z >= 1) by (nonlinear_arith)
        requires
            a.x != 0 || a.y != 0 || a.z != 0,
    ;
    lemma_isqrt_positive(v3_dot_raw(a, a));
}

/// Once a power is zero, every higher power is zero.
pub proof fn lemma_pow_stays_zero(base: int, k: nat, n: nat)
    requires
        k <= n,
        fixed_pow(base, k) == 0,
    ensures
        fixed_pow(base, n) == 0,
    decreases n,
{
    if k < n {
        lemma_pow_stays_zero(base, k, (n - 1) as nat);
    }
}

/// Raises a number between zero and one to the power `n`.
fn pow(base: Fixed, n: u32) -> (r: Fixed)
    ensures
        r@ == fixed_pow(base@, n as nat),
{
    let mut acc = Fixed::one();
    let mut k: u32 = 0;
    while k < n
        invariant
            k <= n,
            acc@ == fixed_pow(base@, k as nat),
        decreases n - k,
    {
        if acc.raw() == 0 {
            proof {
                lemma_pow_stays_zero(base@, k as nat, n as nat);
            }
            return acc;
        }
        acc = acc.mul(base);
        k = k + 1;
    }
    acc
}

/// The square root of a number, rounded down; zero for a negative number.
fn sqrt(a: Fixed) -> (r: Fixed)
    ensures
        r@ == fixed_sqrt(a@),
{
    let raw = a.raw();
    if raw <= 0 {
        return Fixed::zero();
    }
    proof {
        lemma_mul_bound(raw as int, ONE_RAW as int, MAX_RAW as int, ONE_RAW as int);
    }
    let root = isqrt_u128((raw as i128 * ONE_RAW as i128) as u128);
    proof {
        if root > 0x8000_0000 {
            assert(root * root > 0x1000_0000_0000_0000) by (nonlinear_arith)
                requires
                    root > 0x8000_0000,
            ;
            assert(MAX_RAW * ONE_RAW <= 0x1000_0000_0000_0000) by (nonlinear_arith);
        }
    }
    Fixed::from_raw(root as i64)
}

/// Raises a number between zero and one to a power that may have a fraction.
fn power(base: Fixed, exponent: Fixed) -> (r: Fixed)
    ensures
        r@ == fixed_power(base@, exponent@),
{
    let e = exponent.raw();
    if e <= 0 {
        return Fixed::one();
    }
    let whole: u32 = (e / ONE_RAW) as u32;
    let mut fraction: i64 = e % ONE_RAW;
    let mut acc = pow(base, whole);
    let mut root = base;
    let mut weight: i64 = ONE_RAW / 2;
    while weight > 0
        invariant
            0 <= weight <= ONE_RAW / 2,
            root_pow(acc@, root@, fraction as int, weight as int) == fixed_power(
                base@,
                exponent@,
            ),
        decreases weight,
    {
        root = sqrt(root);
        if fraction >= weight {
            acc = acc.mul(root);
            fraction = fraction - weight;
        }
        weight = weight / 2;
    }
    acc
}

/// The diffuse and specular terms of one light at a point that it reaches.
fn diffuse_specular(
    intensity: Fixed,
    normal: Vec3,
    l: Vec3,
    v: Vec3,
    shininess: Option<Fixed>,
) -> (r: Fixed)
    ensures
        r@ == diffuse_specular_sum(intensity@, normal@, l@, v@, shininess),
{
    let i = intensity.raw();
    // diffuse
    let d = normal.dot_raw(l);
    let diffuse_term = if d > 0 {
        let len_n = normal.length_raw();
        let len_l = l.length_raw();
        proof {
            lemma_nonzero_lengths(normal@, l@);
            lemma_mul_bound(len_n as int, len_l as int, 0x8000_0000, 0x8000_0000);
            lemma_mul_bound(i as int, d as int, MAX_RAW as int, 0x3000_0000_0000_0000);
            assert(len_n * len_l >= 1) by (nonlinear_arith)
                requires
                    len_n >= 1,
                    len_l >= 1,
            ;
        }
        let q = div_toward_zero(i as i128 * d as i128, len_n as i128 * len_l as i128);
        Fixed::from_raw(saturate_wide(q))
    } else {
        Fixed::zero()
    };
    // specular
    let specular_term = match shininess {
        Some(s) => {
            let r = reflect_ray(l, normal);
            let d = r.dot_raw(v);
            if d > 0 {
                let len_r = r.length_raw();
                let len_v = v.length_raw();
                proof {
                    lemma_nonzero_lengths(r@, v@);
                    lemma_mul_bound(len_r as int, len_v as int, 0x8000_0000, 0x8000_0000);
                    lemma_mul_bound(d as int, ONE_RAW as int, 0x3000_0000_0000_0000, ONE_RAW as int);
                    assert(len_r * len_v >= 1) by (nonlinear_arith)
                        requires
                            len_r >= 1,
                            len_v >= 1,
                    ;
                    lemma_div_tz_bound(d * ONE_RAW, len_r * len_v);
                }
                let c = div_toward_zero(d as i128 * ONE_RAW as i128, len_r as i128 * len_v as i128);
                let cos = if c > ONE_RAW as i128 {
                    Fixed::one()
                } else {
                    Fixed::from_raw(c as i64)
                };
                intensity.mul(power(cos, s))
            } else {
                Fixed::zero()
            }
        },
        None => Fixed::zero(),
    };
    diffuse_term.add(specular_term)
}

/// A light that reaches every point from everywhere.
#[derive(Clone, Copy, Debug)]
pub struct AmbientLight {
    pub intensity: Fixed,
}

impl AmbientLight {
    /// The ambient light of the given intensity.
    pub fn new(intensity: Fixed) -> (l: AmbientLight)
        ensures
            l == (AmbientLight { intensity }),
    {
        AmbientLight { intensity }
    }

    /// The intensity.
    pub fn get_intensity(&self) -> (i: Fixed)
        ensures
            i == self.intensity,
    {
        self.intensity
    }

    /// What the light adds to any point: its intensity.
    pub fn get_contribution(&self) -> (c: Fixed)
        ensures
            c == self.intensity,
    {
        self.get_intensity()
    }
}

/// A light that shines from one point in all directions.
#[derive(Clone, Copy, Debug)]
pub struct PointLight {
    pub intensity: Fixed,
    pub position: Vec3,
}

impl PointLight {
    /// The point light of the given intensity at the given position.
    pub fn new(intensity: Fixed, position: Vec3) -> (l: PointLight)
        ensures
            l == (PointLight { intensity, position }),
    {
        PointLight { intensity, position }
    }

    /// The intensity.
    pub fn get_intensity(&self) -> (i: Fixed)
        ensures
            i == self.intensity,
    {
        self.intensity
    }

    /// The position.
    pub fn get_position(&self) -> (p: Vec3)
        ensures
            p == self.position,
    {
        self.position
    }

    /// What the light adds to a point that it reaches: the diffuse and
    /// specular terms for the direction from the point to the light.
    pub fn get_contribution(&self, point: Vec3, normal: Vec3, v: Vec3, shininess: Option<Fixed>) -> (c:
        Fixed)
        ensures
            c@ == diffuse_specular_sum(
                self.intensity@,
                normal@,
                v3_sub(self.position@, point@),
                v@,
                shininess,
            ),
    {
        let l = self.get_position().sub(point);
        diffuse_specular(self.get_intensity(), normal, l, v, shininess)
    }
}

/// A light that shines along one direction from infinitely far away.
#[derive(Clone, Copy, Debug)]
pub struct DirectionalLight {
    pub intensity: Fixed,
    pub direction: Vec3,
}

impl DirectionalLight {
    /// The directional light of the given intensity; `direction` points from
    /// the scene toward the light.
    pub fn new(intensity: Fixed, direction: Vec3) -> (l: DirectionalLight)
        ensures
            l == (DirectionalLight { intensity, direction }),
    {
        DirectionalLight { intensity, direction }
    }

    /// The intensity.
    pub fn get_intensity(&self) -> (i: Fixed)
        ensures
            i == self.intensity,
    {
        self.intensity
    }

    /// The direction toward the light.
    pub fn get_direction(&self) -> (d: Vec3)
        ensures
            d == self.direction,
    {
        self.direction
    }

    /// What the light adds to a point that it reaches: the diffuse and
    /// specular terms for its direction.
    pub fn get_contribution(&self, normal: Vec3, v: Vec3, shininess: Option<Fixed>) -> (c: Fixed)
        ensures
            c@ == diffuse_specular_sum(self.intensity@, normal@, self.direction@, v@, shininess),
    {
        let l = self.get_direction();
        diffuse_specular(self.get_intensity(), normal, l, v, shininess)
    }
}

/// A light of one of the three kinds.
#[derive(Clone, Copy, Debug)]
pub enum Light {
    Ambient(AmbientLight),
    Point(PointLight),
    Directional(DirectionalLight),
}

impl Light {
    /// An ambient light.
    pub fn new_ambient(intensity: Fixed) -> (l: Light)
        ensures
            l == Light::Ambient(AmbientLight { intensity }),
    {
        Light::Ambient(AmbientLight::new(intensity))
    }

    /// A point light.
    pub fn new_point(intensity: Fixed, position: Vec3) -> (l: Light)
        ensures
            l == Light::Point(PointLight { intensity, position }),
    {
        Light::Point(PointLight::new(intensity, position))
    }

    /// A directional light.
    pub fn new_directional(intensity: Fixed, direction: Vec3) -> (l: Light)
        ensures
            l == Light::Directional(DirectionalLight { intensity, direction }),
    {
        Light::Directional(DirectionalLight::new(intensity, direction))
    }
}

/// Computes the lighting of the point `point` of a surface with the normal
/// `normal`, seen from the direction `view`: the sum of what each light adds,
/// where a light that a shape blocks adds nothing.
pub fn compute_lighting(
    point: Vec3,
    normal: Vec3,
    view: Vec3,
    shininess: Option<Fixed>,
    lights: &Vec<Light>,
    shapes: &Vec<Shape>,
) -> (total: Fixed)
    ensures
        total@ == lighting(lights@, point@, normal@, view@, shininess, shapes@),
{
    let start = Fixed::from_raw(SURFACE_EPSILON_RAW + 1);
    let mut total = Fixed::zero();
    let mut i: usize = 0;
    while i < lights.len()
        invariant
            i <= lights@.len(),
            start@ == shadow_start(),
            total@ == lighting_among(
                lights@,
                point@,
                normal@,
                view@,
                shininess,
                shapes@,
                i as nat,
            ),
        decreases lights@.len() - i,
    {
        let contribution = match &lights[i] {
            Light::Ambient(light) => light.get_contribution(),
            Light::Point(light) => {
                let l = light.get_position().sub(point);
                if does_intersect(point, l, start, Fixed::one(), shapes) {
                    Fixed::zero()
                } else {
                    light.get_contribution(point, normal, view, shininess)
                }
            },
            Light::Directional(light) => {
                let l = light.get_direction();
                if does_intersect(point, l, start, Fixed::from_raw(MAX_RAW - 1), shapes) {
                    Fixed::zero()
                } else {
                    light.get_contribution(normal, view, shininess)
                }
            },
        };
        total = total.add(contribution);
        i = i + 1;
    }
    total
}

} // verus!
