//! Rays against a list of shapes: reflection, occlusion, the closest hit, and
//! the recursive tracer that turns a ray into a color.
use crate::camera::Camera;
use crate::canvas::{Canvas, Viewport};
use crate::color::{color_blend, color_scale, Color};
use crate::fixed::{product_ratio, Fixed, MAX_RAW, ONE_RAW};
use crate::lights::{
    all_ambient, ambient_total, compute_lighting, lemma_ambient_lighting, lighting, shadow_start,
    Light,
};
use crate::matrix::q4_rotate;
use crate::shapes::Shape;
use crate::surface::{lemma_index_in_bounds, lemma_index_injective, RenderError};
use crate::vector::{
    v3_add, v3_direction, v3_dot, v3_neg, v3_normalize, v3_scale, v3_sub, Vec3, RAY_UNIT_RAW, V3,
};
use vstd::prelude::*;

verus! {

/// The raw value of the distance that a ray must travel from a surface before
/// it can hit anything, so that it does not hit the surface it starts on.
pub const SURFACE_EPSILON_RAW: i64 = 66;

/// The ray `r` mirrored at a surface with the unit normal `n`:
/// `2 * n * dot(n, r) - r`.
pub open spec fn reflect(r: V3, n: V3) -> V3 {
    v3_sub(v3_scale(v3_scale(n, 2 * ONE_RAW), v3_dot(n, r)), r)
}

/// Whether a ray meets a shape at a parameter of the closed range from `t_min`
/// to `t_max`.
pub open spec fn shape_is_hit(
    shape: Shape,
    origin: V3,
    direction: V3,
    unit: int,
    t_min: int,
    t_max: int,
) -> bool {
    match shape.roots(origin, direction, unit) {
        Some((t1, t2)) => (t_min <= t1 <= t_max) || (t_min <= t2 <= t_max),
        None => false,
    }
}

/// Whether a ray meets any of the shapes at a parameter of the closed range
/// from `t_min` to `t_max`.
pub open spec fn ray_is_blocked(
    shapes: Seq<Shape>,
    origin: V3,
    direction: V3,
    unit: int,
    t_min: int,
    t_max: int,
) -> bool {
    exists|i: int| 0 <= i < shapes.len() && shape_is_hit(#[trigger] shapes[i], origin, direction, unit, t_min, t_max)
}

/// The closest hit so far after one more shape was looked at: a root of that
/// shape replaces the hit when it lies in the range and is strictly smaller.
pub open spec fn closer_hit(
    best: (Option<usize>, int),
    index: usize,
    roots: Option<(int, int)>,
    t_min: int,
    t_max: int,
) -> (Option<usize>, int) {
    match roots {
        None => best,
        Some((t1, t2)) => {
            let first = if t_min <= t1 <= t_max && t1 < best.1 {
                (Some(index), t1)
            } else {
                best
            };
            if t_min <= t2 <= t_max && t2 < first.1 {
                (Some(index), t2)
            } else {
                first
            }
        },
    }
}

/// The closest hit among the first `n` shapes: the index of the shape and the
/// parameter of the hit, found by looking at the shapes in order. Without a
/// hit the index is `None` and the parameter is the largest number.
pub open spec fn closest_among(
    shapes: Seq<Shape>,
    origin: V3,
    direction: V3,
    unit: int,
    t_min: int,
    t_max: int,
    n: nat,
) -> (Option<usize>, int)
    decreases n,
{
    if n == 0 {
        (None, MAX_RAW as int)
    } else {
        closer_hit(
            closest_among(shapes, origin, direction, unit, t_min, t_max, (n - 1) as nat),
            (n - 1) as usize,
            shapes[n - 1].roots(origin, direction, unit),
            t_min,
            t_max,
        )
    }
}

/// The closest hit among all the shapes.
pub open spec fn closest_hit(
    shapes: Seq<Shape>,
    origin: V3,
    direction: V3,
    unit: int,
    t_min: int,
    t_max: int,
) -> (Option<usize>, int) {
    closest_among(shapes, origin, direction, unit, t_min, t_max, shapes.len())
}

/// Whether `t` is a parameter of the closed range from `t_min` to `t_max` at
/// which the ray meets the shape.
pub open spec fn is_root_in_range(
    shape: Shape,
    origin: V3,
    direction: V3,
    unit: int,
    t_min: int,
    t_max: int,
    t: int,
) -> bool {
    &&& t_min <= t <= t_max
    &&& shape.roots(origin, direction, unit) matches Some(r) && (r.0 == t || r.1 == t)
}

/// What the closest hit is. Its parameter is at most every root in the range
/// of every shape. With a hit, the parameter is a root in the range of the
/// shape that is named and lies below the largest number, and every root in
/// the range of an earlier shape is strictly larger: of two shapes that are hit
/// at the same smallest parameter, the first in the list is named. Without a
/// hit, no shape has a root in the range below the largest number.
pub proof fn lemma_closest_among(
    shapes: Seq<Shape>,
    origin: V3,
    direction: V3,
    unit: int,
    t_min: int,
    t_max: int,
    n: nat,
)
    requires
        n <= shapes.len(),
        n <= usize::MAX,
    ensures
        ({
            let (found, t) = closest_among(shapes, origin, direction, unit, t_min, t_max, n);
            &&& t <= MAX_RAW
            &&& forall|i: int, u: int|
                0 <= i < n && #[trigger] is_root_in_range(
                    shapes[i],
                    origin,
                    direction,
                    unit,
                    t_min,
                    t_max,
                    u,
                ) ==> t <= u
            &&& found matches Some(k) ==> {
                &&& k < n
                &&& t < MAX_RAW
                &&& is_root_in_range(shapes[k as int], origin, direction, unit, t_min, t_max, t)
                &&& forall|i: int, u: int|
                    0 <= i < k && #[trigger] is_root_in_range(
                        shapes[i],
                        origin,
                        direction,
                        unit,
                        t_min,
                        t_max,
                        u,
                    ) ==> t < u
            }
            &&& found is None ==> t == MAX_RAW
        }),
    decreases n,
{
    if n > 0 {
        lemma_closest_among(shapes, origin, direction, unit, t_min, t_max, (n - 1) as nat);
    }
}

/// Mirrors the ray `r` at a surface with the unit normal `n`.
pub fn reflect_ray(r: Vec3, n: Vec3) -> (m: Vec3)
    ensures
        m@ == reflect(r@, n@),
{
    n.scale(Fixed::from_int(2)).scale(n.dot(r)).sub(r)
}

/// Whether the ray from `origin` along `direction` meets any of the shapes at
/// a parameter of the closed range from `t_min` to `t_max`.
pub fn does_intersect(origin: Vec3, direction: Vec3, t_min: Fixed, t_max: Fixed, shapes: &Vec<Shape>) -> (hit: bool)
    ensures
        hit == ray_is_blocked(shapes@, origin@, direction@, ONE_RAW as int, t_min@, t_max@),
{
    let mut i: usize = 0;
    while i < shapes.len()
        invariant
            i <= shapes@.len(),
            forall|j: int|
                0 <= j < i ==> !shape_is_hit(
                    #[trigger] shapes@[j],
                    origin@,
                    direction@, ONE_RAW as int,
                    t_min@,
                    t_max@,
                ),
        decreases shapes@.len() - i,
    {
        match shapes[i].intersect_ray(origin, direction) {
            Some((t1, t2)) => {
                if t1.within(t_min, t_max) || t2.within(t_min, t_max) {
                    return true;
                }
            },
            None => {},
        }
        i = i + 1;
    }
    false
}

/// Finds the shape that the ray from `origin` along `direction` hits first at a
/// parameter of the closed range from `t_min` to `t_max`, and that parameter.
/// Of two shapes that are hit at the same parameter the earlier in the list is
/// found. Without a hit the result is `None` and the largest number.
pub fn closest_intersection(
    origin: Vec3,
    direction: Vec3,
    t_min: Fixed,
    t_max: Fixed,
    shapes: &Vec<Shape>,
) -> (hit: (Option<usize>, Fixed))
    ensures
        (hit.0, hit.1@) == closest_hit(
            shapes@,
            origin@,
            direction@,
            ONE_RAW as int,
            t_min@,
            t_max@,
        ),
        hit.0 matches Some(k) ==> k < shapes@.len(),
{
    closest_intersection_scaled(origin, direction, Fixed::one(), t_min, t_max, shapes)
}

/// Finds the closest hit of a ray whose direction is held on a scale of its
/// own: `unit` is the length that stands for one in `direction`, so that the
/// parameter one is the point `direction / unit` away from the origin.
pub fn closest_intersection_scaled(
    origin: Vec3,
    direction: Vec3,
    unit: Fixed,
    t_min: Fixed,
    t_max: Fixed,
    shapes: &Vec<Shape>,
) -> (hit: (Option<usize>, Fixed))
    ensures
        (hit.0, hit.1@) == closest_hit(shapes@, origin@, direction@, unit@, t_min@, t_max@),
        hit.0 matches Some(k) ==> k < shapes@.len(),
{
    let mut closest_t = Fixed::max_value();
    let mut closest_shape: Option<usize> = None;
    let mut i: usize = 0;
    while i < shapes.len()
        invariant
            i <= shapes@.len(),
            (closest_shape, closest_t@) == closest_among(
                shapes@,
                origin@,
                direction@,
                unit@,
                t_min@,
                t_max@,
                i as nat,
            ),
            closest_shape matches Some(k) ==> k < i,
        decreases shapes@.len() - i,
    {
        match shapes[i].intersect_scaled_ray(origin, direction, unit) {
            Some((t1, t2)) => {
                if t1.within(t_min, t_max) && t1.lt(closest_t) {
                    closest_t = t1;
                    closest_shape = Some(i);
                }
                if t2.within(t_min, t_max) && t2.lt(closest_t) {
                    closest_t = t2;
                    closest_shape = Some(i);
                }
            },
            None => {},
        }
        i = i + 1;
    }
    (closest_shape, closest_t)
}

/// The color at the end of a ray when nothing is lit: the base color of the
/// shape that it hits first, or the background when it hits none.
pub open spec fn flat_color(
    shapes: Seq<Shape>,
    origin: V3,
    direction: V3,
    unit: int,
    t_min: int,
    t_max: int,
    background: Color,
) -> Color {
    match closest_hit(shapes, origin, direction, unit, t_min, t_max).0 {
        Some(k) => shapes[k as int].material().color,
        None => background,
    }
}

/// Traces the ray from `origin` along `direction` without lights: the result
/// is the base color of the shape that the ray hits first in the range, or
/// the background.
pub fn trace_ray_no_lights(
    origin: Vec3,
    direction: Vec3,
    t_min: Fixed,
    t_max: Fixed,
    shapes: &Vec<Shape>,
    background: Color,
) -> (color: Color)
    ensures
        color == flat_color(
            shapes@,
            origin@,
            direction@,
            ONE_RAW as int,
            t_min@,
            t_max@,
            background,
        ),
{
    trace_scaled_ray_no_lights(origin, direction, Fixed::one(), t_min, t_max, shapes, background)
}

/// Traces a ray without lights whose direction is held on a scale of its own,
/// with `unit` the length that stands for one in it.
pub fn trace_scaled_ray_no_lights(
    origin: Vec3,
    direction: Vec3,
    unit: Fixed,
    t_min: Fixed,
    t_max: Fixed,
    shapes: &Vec<Shape>,
    background: Color,
) -> (color: Color)
    ensures
        color == flat_color(shapes@, origin@, direction@, unit@, t_min@, t_max@, background),
{
    let (closest_shape, _) = closest_intersection_scaled(
        origin,
        direction,
        unit,
        t_min,
        t_max,
        shapes,
    );
    match closest_shape {
        Some(k) => shapes[k].get_material().get_color(),
        None => background,
    }
}

/// How far a ray has come at the parameter `t`: `t * direction / unit`, each
/// coordinate rounded once.
pub open spec fn v3_travel(direction: V3, unit: int, t: int) -> V3 {
    V3 {
        x: product_ratio(direction.x, t, unit),
        y: product_ratio(direction.y, t, unit),
        z: product_ratio(direction.z, t, unit),
    }
}

/// The point of a ray at the parameter `t`: `origin + t * direction`, where
/// `unit` is the length that stands for one in the direction.
pub open spec fn hit_point(origin: V3, direction: V3, unit: int, t: int) -> V3 {
    v3_add(origin, v3_travel(direction, unit, t))
}

/// The outward unit normal of a shape at the point `point` of its surface, or
/// the zero vector at its center.
pub open spec fn surface_normal(shape: Shape, point: V3) -> V3 {
    v3_normalize(v3_sub(point, shape.center()@))
}

/// The color that a shape has at the point `point` by the lights alone, seen
/// against the direction `direction` of the ray: its base color scaled by the
/// lighting of the point.
pub open spec fn local_color(
    shape: Shape,
    point: V3,
    direction: V3,
    lights: Seq<Light>,
    shapes: Seq<Shape>,
) -> Color {
    color_scale(
        shape.material().color,
        lighting(
            lights,
            point,
            surface_normal(shape, point),
            v3_neg(direction),
            shape.material().shininess,
            shapes,
        ),
    )
}

/// The color that the ray from `origin` along `direction` brings back. It is
/// the background when the ray hits no shape in the range. Otherwise it is the
/// local color of the closest hit; when `depth` is not zero and the material
/// reflects, that color is blended with the color of the mirrored ray, traced
/// from the hit point with one level less, by the reflectiveness.
pub open spec fn trace(
    origin: V3,
    direction: V3,
    unit: int,
    t_min: int,
    t_max: int,
    depth: nat,
    lights: Seq<Light>,
    shapes: Seq<Shape>,
    background: Color,
) -> Color
    decreases depth,
{
    let (found, t) = closest_hit(shapes, origin, direction, unit, t_min, t_max);
    match found {
        None => background,
        Some(k) => {
            let shape = shapes[k as int];
            let p = hit_point(origin, direction, unit, t);
            let local = local_color(shape, p, direction, lights, shapes);
            if depth == 0 {
                local
            } else {
                match shape.material().reflectiveness {
                    None => local,
                    Some(r) => {
                        let mirrored = reflect(v3_neg(direction), surface_normal(shape, p));
                        let reflected = trace(
                            p,
                            mirrored,
                            unit,
                            shadow_start(),
                            MAX_RAW as int,
                            (depth - 1) as nat,
                            lights,
                            shapes,
                            background,
                        );
                        color_blend(local, reflected, r@)
                    },
                }
            }
        },
    }
}

/// Traces the ray from `origin` along `direction` and returns the color that
/// it brings back, following reflections `reflection_depth` levels deep.
pub fn trace_ray(
    origin: Vec3,
    direction: Vec3,
    t_min: Fixed,
    t_max: Fixed,
    reflection_depth: usize,
    lights: &Vec<Light>,
    shapes: &Vec<Shape>,
    background: Color,
) -> (color: Color)
    ensures
        color == trace(
            origin@,
            direction@,
            ONE_RAW as int,
            t_min@,
            t_max@,
            reflection_depth as nat,
            lights@,
            shapes@,
            background,
        ),
{
    trace_scaled_ray(
        origin,
        direction,
        Fixed::one(),
        t_min,
        t_max,
        reflection_depth,
        lights,
        shapes,
        background,
    )
}

/// Traces a ray whose direction is held on a scale of its own: `unit` is the
/// length that stands for one in `direction`, so that the parameter one is
/// the point `direction / unit` away from the origin. The rays that a camera
/// sends through the points of its canvas are held on a finer scale than
/// positions, and so are the rays that they are mirrored to.
pub fn trace_scaled_ray(
    origin: Vec3,
    direction: Vec3,
    unit: Fixed,
    t_min: Fixed,
    t_max: Fixed,
    reflection_depth: usize,
    lights: &Vec<Light>,
    shapes: &Vec<Shape>,
    background: Color,
) -> (color: Color)
    ensures
        color == trace(
            origin@,
            direction@,
            unit@,
            t_min@,
            t_max@,
            reflection_depth as nat,
            lights@,
            shapes@,
            background,
        ),
    decreases reflection_depth,
{
    let (closest_shape, closest_t) = closest_intersection_scaled(
        origin,
        direction,
        unit,
        t_min,
        t_max,
        shapes,
    );
    match closest_shape {
        None => background,
        Some(k) => {
            let shape = &shapes[k];
            let gone = Vec3 {
                x: direction.x.mul_div(closest_t, unit),
                y: direction.y.mul_div(closest_t, unit),
                z: direction.z.mul_div(closest_t, unit),
            };
            let p = origin.add(gone);
            let n = p.sub(shape.get_center()).normalize_or_zero();
            let material = shape.get_material();
            let l = compute_lighting(p, n, direction.neg(), material.get_shininess(), lights, shapes);
            let local = material.get_color().scale(l);
            if reflection_depth == 0 {
                return local;
            }
            match material.get_reflectiveness() {
                None => local,
                Some(r) => {
                    let mirrored = reflect_ray(direction.neg(), n);
                    let reflected = trace_scaled_ray(
                        p,
                        mirrored,
                        unit,
                        Fixed::from_raw(SURFACE_EPSILON_RAW + 1),
                        Fixed::max_value(),
                        reflection_depth - 1,
                        lights,
                        shapes,
                        background,
                    );
                    local.blend(reflected, r)
                },
            }
        },
    }
}

/// A ray that is traced without reflection levels never follows a mirrored
/// ray: whatever the material reflects, its color is the local color of the
/// closest hit, or the background.
pub proof fn lemma_trace_without_depth(
    origin: V3,
    direction: V3,
    unit: int,
    t_min: int,
    t_max: int,
    lights: Seq<Light>,
    shapes: Seq<Shape>,
    background: Color,
)
    ensures
        trace(origin, direction, unit, t_min, t_max, 0, lights, shapes, background) == match closest_hit(
            shapes,
            origin,
            direction,
            unit,
            t_min,
            t_max,
        ) {
            (None, _) => background,
            (Some(k), t) => local_color(
                shapes[k as int],
                hit_point(origin, direction, unit, t),
                direction,
                lights,
                shapes,
            ),
        },
{
}

/// Under ambient lights alone, a ray that hits a shape and is not followed
/// into a reflection brings back the base color of the shape scaled by the
/// sum of the intensities of the lights.
pub proof fn lemma_trace_under_ambient_lights(
    origin: V3,
    direction: V3,
    unit: int,
    t_min: int,
    t_max: int,
    depth: nat,
    lights: Seq<Light>,
    shapes: Seq<Shape>,
    background: Color,
)
    requires
        all_ambient(lights),
        closest_hit(shapes, origin, direction, unit, t_min, t_max).0 matches Some(k) && (depth == 0
            || shapes[k as int].material().reflectiveness is None),
    ensures
        trace(origin, direction, unit, t_min, t_max, depth, lights, shapes, background) == color_scale(
            shapes[closest_hit(shapes, origin, direction, unit, t_min, t_max).0->Some_0 as int].material().color,
            ambient_total(lights, lights.len()),
        ),
{
    let (found, t) = closest_hit(shapes, origin, direction, unit, t_min, t_max);
    let shape = shapes[found->Some_0 as int];
    let p = hit_point(origin, direction, unit, t);
    lemma_ambient_lighting(
        lights,
        p,
        surface_normal(shape, p),
        v3_neg(direction),
        shape.material().shininess,
        shapes,
        lights.len(),
    );
}

/// The direction of the ray that the camera sends through the point `(x, y)`
/// of the canvas: the direction to the point of the viewport, turned as the
/// camera is. It is held on the scale on which [`RAY_UNIT_RAW`] stands for one,
/// which keeps thirteen bits more of it than the common scale would.
pub open spec fn primary_direction(camera: Camera, viewport: Viewport, x: int, y: int) -> V3 {
    q4_rotate(camera.rotation@, v3_direction(viewport.to_viewport(x, y)))
}

/// The color of a ray of a frame: traced with the lights and their
/// reflections when there are lights, and the base color of what it hits
/// when the frame is drawn without lights.
pub open spec fn ray_color(
    origin: V3,
    direction: V3,
    unit: int,
    t_min: int,
    t_max: int,
    depth: nat,
    lights: Option<Seq<Light>>,
    shapes: Seq<Shape>,
    background: Color,
) -> Color {
    match lights {
        Some(l) => trace(origin, direction, unit, t_min, t_max, depth, l, shapes, background),
        None => flat_color(shapes, origin, direction, unit, t_min, t_max, background),
    }
}

/// The color that the camera sees through the point `(x, y)` of the canvas: the
/// color of the ray from the camera through that point of the viewport.
pub open spec fn seen_color(
    camera: Camera,
    viewport: Viewport,
    x: int,
    y: int,
    t_min: int,
    t_max: int,
    depth: nat,
    lights: Option<Seq<Light>>,
    shapes: Seq<Shape>,
    background: Color,
) -> Color {
    ray_color(
        camera.translation@,
        primary_direction(camera, viewport, x, y),
        RAY_UNIT_RAW as int,
        t_min,
        t_max,
        depth,
        lights,
        shapes,
        background,
    )
}

/// The lights of a frame as a sequence, if it has lights.
pub open spec fn lights_of(lights: Option<&Vec<Light>>) -> Option<Seq<Light>> {
    match lights {
        Some(l) => Some(l@),
        None => None,
    }
}

/// Sends one ray through every point of the canvas and writes its color
/// there, column by column.
fn paint_rays(
    canvas: &mut Canvas,
    camera: &Camera,
    t_min: Fixed,
    t_max: Fixed,
    depth: usize,
    lights: Option<&Vec<Light>>,
    shapes: &Vec<Shape>,
    background: Color,
) -> (r: Result<(), RenderError>)
    ensures
        r == Ok::<(), RenderError>(()),
        final(canvas)@.half_width == old(canvas)@.half_width,
        final(canvas)@.half_height == old(canvas)@.half_height,
        final(canvas)@.well_formed(),
        final(canvas).viewport() == old(canvas).viewport(),
        forall|x: int, y: int|
            final(canvas)@.contains(x, y) ==> #[trigger] final(canvas)@.color_at(x, y)
                == seen_color(
                *camera,
                old(canvas).viewport(),
                x,
                y,
                t_min@,
                t_max@,
                depth as nat,
                lights_of(lights),
                shapes@,
                background,
            ),
{
    let half_width = canvas.get_half_width();
    let half_height = canvas.get_half_height();
    let origin = camera.get_translation();
    let mut x: i32 = -half_width;
    while x <= half_width
        invariant
            0 <= half_width <= 8192,
            0 <= half_height <= 8192,
            -half_width <= x <= half_width + 1,
            origin == camera.translation,
            canvas@.half_width == half_width,
            canvas@.half_height == half_height,
            canvas@.half_width == old(canvas)@.half_width,
            canvas@.half_height == old(canvas)@.half_height,
            canvas@.well_formed(),
            canvas.viewport() == old(canvas).viewport(),
            forall|i: int, j: int|
                canvas@.contains(i, j) && i < x ==> #[trigger] canvas@.color_at(i, j) == seen_color(
                    *camera,
                    old(canvas).viewport(),
                    i,
                    j,
                    t_min@,
                    t_max@,
                    depth as nat,
                    lights_of(lights),
                    shapes@,
                    background,
                ),
        decreases half_width + 1 - x,
    {
        let mut y: i32 = -half_height;
        while y <= half_height
            invariant
                0 <= half_width <= 8192,
                0 <= half_height <= 8192,
                -half_width <= x <= half_width,
                -half_height <= y <= half_height + 1,
                origin == camera.translation,
                canvas@.half_width == half_width,
                canvas@.half_height == half_height,
                canvas@.half_width == old(canvas)@.half_width,
                canvas@.half_height == old(canvas)@.half_height,
                canvas@.well_formed(),
                canvas.viewport() == old(canvas).viewport(),
                forall|i: int, j: int|
                    canvas@.contains(i, j) && (i < x || (i == x && j < y))
                        ==> #[trigger] canvas@.color_at(i, j) == seen_color(
                        *camera,
                        old(canvas).viewport(),
                        i,
                        j,
                        t_min@,
                        t_max@,
                        depth as nat,
                        lights_of(lights),
                        shapes@,
                        background,
                    ),
            decreases half_height + 1 - y,
        {
            let direction = camera.get_rotation().rotate(
                canvas.to_viewport(x, y).to_direction(),
            );
            let unit = Fixed::from_raw(RAY_UNIT_RAW);
            let color = match lights {
                Some(l) => trace_scaled_ray(
                    origin,
                    direction,
                    unit,
                    t_min,
                    t_max,
                    depth,
                    l,
                    shapes,
                    background,
                ),
                None => trace_scaled_ray_no_lights(
                    origin,
                    direction,
                    unit,
                    t_min,
                    t_max,
                    shapes,
                    background,
                ),
            };
            let ghost before = canvas@;
            match canvas.put_pixel(x, y, color) {
                Ok(()) => {},
                Err(e) => {
                    return Err(e);
                },
            }
            proof {
                lemma_index_in_bounds(before, x as int, y as int);
                assert forall|i: int, j: int|
                    canvas@.contains(i, j) && (i < x || (i == x && j < y + 1))
                        implies #[trigger] canvas@.color_at(i, j) == seen_color(
                    *camera,
                    old(canvas).viewport(),
                    i,
                    j,
                    t_min@,
                    t_max@,
                    depth as nat,
                    lights_of(lights),
                    shapes@,
                    background,
                ) by {
                    lemma_index_in_bounds(before, i, j);
                    if i != x || j != y {
                        if before.index_of(i, j) == before.index_of(x as int, y as int) {
                            lemma_index_injective(before, i, j, x as int, y as int);
                        }
                        assert(canvas@.color_at(i, j) == before.color_at(i, j));
                    }
                }
            }
            y = y + 1;
        }
        x = x + 1;
    }
    Ok(())
}

/// Draws a frame of the ray tracer: through every point of the canvas goes one
/// ray from the camera, which counts hits from the viewport plane on, at the
/// parameter one, and follows reflections `reflection_depth` levels deep. Each
/// pixel depends on the scene alone, not on another pixel, and every point is
/// on the canvas, so that the frame cannot fail.
pub fn render(
    canvas: &mut Canvas,
    camera: &Camera,
    reflection_depth: usize,
    lights: &Vec<Light>,
    shapes: &Vec<Shape>,
    background: Color,
) -> (r: Result<(), RenderError>)
    ensures
        r == Ok::<(), RenderError>(()),
        final(canvas)@.half_width == old(canvas)@.half_width,
        final(canvas)@.half_height == old(canvas)@.half_height,
        final(canvas)@.well_formed(),
        final(canvas).viewport() == old(canvas).viewport(),
        forall|x: int, y: int|
            final(canvas)@.contains(x, y) ==> #[trigger] final(canvas)@.color_at(x, y)
                == seen_color(
                *camera,
                old(canvas).viewport(),
                x,
                y,
                ONE_RAW as int,
                MAX_RAW as int,
                reflection_depth as nat,
                Some(lights@),
                shapes@,
                background,
            ),
{
    paint_rays(
        canvas,
        camera,
        Fixed::one(),
        Fixed::max_value(),
        reflection_depth,
        Some(lights),
        shapes,
        background,
    )
}

/// Draws a frame without lights: every point of the canvas gets the base color
/// of the shape that the ray through it hits first at a parameter of the
/// closed range from `t_min` to `t_max`, or the background.
pub fn render_no_lights(
    canvas: &mut Canvas,
    camera: &Camera,
    t_min: Fixed,
    t_max: Fixed,
    shapes: &Vec<Shape>,
    background: Color,
) -> (r: Result<(), RenderError>)
    ensures
        r == Ok::<(), RenderError>(()),
        final(canvas)@.half_width == old(canvas)@.half_width,
        final(canvas)@.half_height == old(canvas)@.half_height,
        final(canvas)@.well_formed(),
        final(canvas).viewport() == old(canvas).viewport(),
        forall|x: int, y: int|
            final(canvas)@.contains(x, y) ==> #[trigger] final(canvas)@.color_at(x, y)
                == seen_color(
                *camera,
                old(canvas).viewport(),
                x,
                y,
                t_min@,
                t_max@,
                0,
                None,
                shapes@,
                background,
            ),
{
    paint_rays(canvas, camera, t_min, t_max, 0, None, shapes, background)
}

} // verus!
