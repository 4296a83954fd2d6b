//! The canvas: a surface held in memory that the rasterizer and the ray tracer
//! draw on, together with the viewport that maps it to camera space.
use crate::arith::{abs, div_toward_zero, div_tz, lemma_mul_bound};
use crate::color::Color;
use crate::fixed::{product_ratio, quotient, saturate_wide, Fixed, MAX_RAW, ONE_RAW};
use crate::models::{draw_mesh, faces_of, project_each, render_mesh_with, views};
use crate::raster::{
    filled_triangle_dots, line_dots, line_pixels, shaded_triangle_pixels, triangle_dots,
    wireframe_dots,
};
use crate::shapes::Triangle;
use crate::surface::{
    lemma_first_outside_skips, lemma_index_in_bounds, lemma_painted_prefix, lemma_painted_shape,
    lemma_plot_accepted, lemma_plot_concat, lemma_visible, Pixel, RenderError, Surface,
};
use crate::vector::{
    fine_saturate, v3_fine, FinePoint, Vec3, FINE_MAX_RAW, FINE_PER_RAW, V3,
};
use vstd::prelude::*;

verus! {

/// The longest side, in pixels, that a canvas can be made for.
pub const MAX_SIDE: u32 = 16384;

/// A wide integer as a 64-bit one, clamped to the range of the fine scale,
/// which lies well within it.
fn clamp_to_i64(v: i128) -> (r: i64)
    ensures
        fine_saturate(r as int) == fine_saturate(v as int),
{
    if v < -(FINE_MAX_RAW as i128) {
        -FINE_MAX_RAW
    } else if v > FINE_MAX_RAW as i128 {
        FINE_MAX_RAW
    } else {
        v as i64
    }
}

/// Appends the pixels of `more` to `dots`.
fn append_pixels(dots: &mut Vec<Pixel>, more: &Vec<Pixel>)
    ensures
        final(dots)@ == old(dots)@ + more@,
{
    let mut i: usize = 0;
    while i < more.len()
        invariant
            i <= more@.len(),
            dots@ == old(dots)@ + more@.take(i as int),
        decreases more@.len() - i,
    {
        dots.push(more[i]);
        assert(dots@ =~= old(dots)@ + more@.take(i + 1));
        i = i + 1;
    }
    assert(more@.take(i as int) == more@);
}

/// The model of the viewport mapping of a canvas: the sides of the canvas in
/// pixels and the raw sides and distance of the viewport rectangle.
pub struct Viewport {
    pub width: int,
    pub height: int,
    pub viewport_width: int,
    pub viewport_height: int,
    pub viewport_distance: int,
}

impl Viewport {
    /// The camera-space point of the viewport plane that the canvas point
    /// `(x, y)` maps to, on the fine scale: each coordinate is scaled by the
    /// ratio of the viewport side to the canvas side, and `z` is the viewport
    /// distance.
    pub open spec fn to_viewport(self, x: int, y: int) -> V3 {
        V3 {
            x: fine_saturate(div_tz(x * self.viewport_width * FINE_PER_RAW, self.width)),
            y: fine_saturate(div_tz(y * self.viewport_height * FINE_PER_RAW, self.height)),
            z: self.viewport_distance * FINE_PER_RAW,
        }
    }

    /// The canvas point that the viewport point `(x, y)` maps to: each
    /// coordinate is scaled by the ratio of the canvas side to the viewport
    /// side, and `z` is the viewport distance.
    pub open spec fn from_viewport(self, x: int, y: int) -> V3 {
        V3 {
            x: product_ratio(x, self.width * ONE_RAW, self.viewport_width),
            y: product_ratio(y, self.height * ONE_RAW, self.viewport_height),
            z: self.viewport_distance,
        }
    }

    /// One coordinate of the canvas point that a camera-space point projects
    /// to: the coordinate `c` of the point, divided by its depth `z` over the
    /// viewport distance and scaled by the ratio of the canvas side to the
    /// viewport side, all in one division.
    pub open spec fn project_coordinate(self, c: int, z: int, side: int, viewport_side: int) -> int {
        quotient(c * self.viewport_distance * (side * ONE_RAW), z * viewport_side)
    }

    /// The canvas point that the camera-space point `v` of the fine scale
    /// projects to. The third component is the viewport distance.
    pub open spec fn project(self, v: V3) -> V3 {
        V3 {
            x: self.project_coordinate(v.x, v.z, self.width, self.viewport_width),
            y: self.project_coordinate(v.y, v.z, self.height, self.viewport_height),
            z: self.viewport_distance,
        }
    }
}

/// How far, in raw units, a coordinate of a canvas point can come back from
/// where it started when the point is mapped to the viewport and projected
/// from there: at most two raw units, which is three hundred-thousandths of
/// a pixel, when the viewport is at least one wide.
pub open spec fn round_trip_tolerance(side: int, viewport_side: int) -> int {
    (side * ONE_RAW) / (FINE_PER_RAW * viewport_side) + 1
}

proof fn lemma_round_trip_forward(vp: Viewport, n: int, side: int, viewport_side: int)
    requires
        0 < side <= MAX_SIDE,
        0 < viewport_side <= MAX_RAW,
        0 < vp.viewport_distance <= MAX_RAW,
        0 <= n <= MAX_SIDE,
        n * viewport_side <= side * MAX_RAW,
    ensures
        ({
            let there = fine_saturate(div_tz(n * viewport_side * FINE_PER_RAW, side));
            let back = vp.project_coordinate(
                there,
                vp.viewport_distance * FINE_PER_RAW,
                side,
                viewport_side,
            );
            let there_neg = fine_saturate(div_tz((-n) * viewport_side * FINE_PER_RAW, side));
            let back_neg = vp.project_coordinate(
                there_neg,
                vp.viewport_distance * FINE_PER_RAW,
                side,
                viewport_side,
            );
            &&& n * ONE_RAW - round_trip_tolerance(side, viewport_side) <= back <= n * ONE_RAW
            &&& 0 <= back
            &&& back_neg == -back
            &&& viewport_side >= ONE_RAW ==> round_trip_tolerance(side, viewport_side) <= 2
        }),
{
    let w = side;
    let vw = viewport_side;
    let d = vp.viewport_distance;
    let one = ONE_RAW as int;
    let k = FINE_PER_RAW as int;
    let a = n * vw * k;
    let x = a / w;
    let top = MAX_RAW * k;
    assert(0 <= a && a <= w * top) by (nonlinear_arith)
        requires
            a == n * vw * k,
            top == MAX_RAW * k,
            0 <= n,
            n * vw <= w * MAX_RAW,
            0 < vw,
            k == 16384,
    ;
    assert(x * w <= a < x * w + w && 0 <= x <= top) by (nonlinear_arith)
        requires
            x == a / w,
            0 <= a,
            a <= w * top,
            0 < w,
            0 <= top,
    ;
    assert(top == FINE_MAX_RAW) by (nonlinear_arith)
        requires
            top == MAX_RAW * k,
            k == 16384,
    ;
    assert((-n) * vw * k == -a) by (nonlinear_arith)
        requires
            a == n * vw * k,
    ;
    // the way back: one division of `num` by `den`
    let ws = w * one;
    let den = (d * k) * vw;
    let num = x * d * ws;
    let p = num / den;
    let t = ws / (k * vw);
    assert(0 < den && den == d * (k * vw)) by (nonlinear_arith)
        requires
            den == (d * k) * vw,
            0 < d,
            0 < vw,
            k == 16384,
    ;
    assert(0 < ws) by (nonlinear_arith)
        requires
            ws == w * one,
            0 < w,
            one == 65536,
    ;
    assert(0 <= num && num == (d * one) * (x * w)) by (nonlinear_arith)
        requires
            num == x * d * ws,
            ws == w * one,
            0 <= x,
            0 < d,
            0 < w,
            one == 65536,
    ;
    assert((d * one) * a == (n * one) * den) by (nonlinear_arith)
        requires
            a == n * vw * k,
            den == (d * k) * vw,
    ;
    assert(num <= (n * one) * den && num > (n * one) * den - (d * one) * w) by (nonlinear_arith)
        requires
            num == (d * one) * (x * w),
            (d * one) * a == (n * one) * den,
            x * w <= a < x * w + w,
            0 < d,
            one == 65536,
    ;
    assert(t * (k * vw) <= ws < t * (k * vw) + k * vw && 0 <= t) by (nonlinear_arith)
        requires
            t == ws / (k * vw),
            0 < ws,
            0 < k * vw,
    ;
    assert((d * one) * w < (t + 1) * den) by (nonlinear_arith)
        requires
            ws == w * one,
            ws < t * (k * vw) + k * vw,
            den == d * (k * vw),
            0 < d,
    ;
    assert(p * den <= num < p * den + den && 0 <= p) by (nonlinear_arith)
        requires
            p == num / den,
            0 <= num,
            0 < den,
    ;
    assert(p <= n * one) by (nonlinear_arith)
        requires
            p * den <= num,
            num <= (n * one) * den,
            0 < den,
    ;
    assert(p + 1 > n * one - t - 1) by (nonlinear_arith)
        requires
            num < p * den + den,
            num > (n * one) * den - (d * one) * w,
            (d * one) * w < (t + 1) * den,
            0 < den,
    ;
    assert(n * one <= 16384 * 65536) by (nonlinear_arith)
        requires
            0 <= n <= 16384,
            one == 65536,
    ;
    assert((-x) * d * ws == -num) by (nonlinear_arith)
        requires
            num == x * d * ws,
    ;
    assert(x * d * (w * one) == num && (-x) * d * (w * one) == -num);
    assert((d * k) * vw == den);
    if vw >= one {
        assert(ws < 2 * (k * vw)) by (nonlinear_arith)
            requires
                ws == w * one,
                0 < w <= 16384,
                vw >= one,
                k == 16384,
                one == 65536,
        ;
        assert(t <= 1) by (nonlinear_arith)
            requires
                t * (k * vw) <= ws,
                ws < 2 * (k * vw),
                0 < k * vw,
        ;
    }
}

/// A point that is mapped to the viewport and projected from there, at the
/// depth of the viewport, comes back to where it started: within the
/// tolerance of [`round_trip_tolerance`] in each coordinate, which is two raw
/// units when the viewport is at least one wide and high, and never farther
/// from the center than it was. This holds of every point whose coordinates
/// are representable, on the canvas or off it, whose viewport coordinates are
/// representable too: on a canvas with a viewport of one by one, of every
/// point up to 16384 from the center.
pub proof fn lemma_project_round_trip(vp: Viewport, x: int, y: int)
    requires
        0 < vp.width <= MAX_SIDE,
        0 < vp.height <= MAX_SIDE,
        0 < vp.viewport_width <= MAX_RAW,
        0 < vp.viewport_height <= MAX_RAW,
        0 < vp.viewport_distance <= MAX_RAW,
        -MAX_SIDE <= x <= MAX_SIDE,
        -MAX_SIDE <= y <= MAX_SIDE,
        abs(x) * vp.viewport_width <= vp.width * MAX_RAW,
        abs(y) * vp.viewport_height <= vp.height * MAX_RAW,
    ensures
        ({
            let p = vp.project(vp.to_viewport(x, y));
            &&& p.z == vp.viewport_distance
            &&& abs(p.x - x * ONE_RAW) <= round_trip_tolerance(vp.width, vp.viewport_width)
            &&& abs(p.y - y * ONE_RAW) <= round_trip_tolerance(vp.height, vp.viewport_height)
            &&& abs(p.x) <= abs(x * ONE_RAW)
            &&& abs(p.y) <= abs(y * ONE_RAW)
            &&& vp.viewport_width >= ONE_RAW ==> abs(p.x - x * ONE_RAW) <= 2
            &&& vp.viewport_height >= ONE_RAW ==> abs(p.y - y * ONE_RAW) <= 2
        }),
{
    lemma_round_trip_forward(vp, abs(x), vp.width, vp.viewport_width);
    lemma_round_trip_forward(vp, abs(y), vp.height, vp.viewport_height);
}

/// A drawing surface in memory with its viewport.
pub struct Canvas {
    width: u32,
    height: u32,
    half_width: i32,
    half_height: i32,
    viewport_width: Fixed,
    viewport_height: Fixed,
    viewport_distance: Fixed,
    colors: Vec<Color>,
}

impl View for Canvas {
    type V = Surface;

    closed spec fn view(&self) -> Surface {
        Surface {
            half_width: self.half_width as int,
            half_height: self.half_height as int,
            colors: self.colors@,
            viewport: Viewport {
                width: self.width as int,
                height: self.height as int,
                viewport_width: self.viewport_width@,
                viewport_height: self.viewport_height@,
                viewport_distance: self.viewport_distance@,
            },
        }
    }
}

impl Canvas {
    #[verifier::type_invariant]
    closed spec fn consistent(self) -> bool {
        &&& 0 < self.width <= MAX_SIDE
        &&& 0 < self.height <= MAX_SIDE
        &&& self.half_width == self.width / 2
        &&& self.half_height == self.height / 2
        &&& self.viewport_width@ > 0
        &&& self.viewport_height@ > 0
        &&& self@.well_formed()
    }

    /// The viewport mapping of the canvas.
    pub open spec fn viewport(&self) -> Viewport {
        self@.viewport
    }

    /// A black canvas for a window of `width` by `height` pixels, with a
    /// viewport of one by one at distance one. The canvas holds the points
    /// whose coordinates are at most half a side away from the center. A side
    /// of zero or of more than [`MAX_SIDE`] pixels is refused.
    pub fn from_window(width: u32, height: u32) -> (r: Result<Canvas, RenderError>)
        ensures
            r is Ok <==> 0 < width <= MAX_SIDE && 0 < height <= MAX_SIDE,
            r is Err ==> r == Err::<Canvas, RenderError>(RenderError::InvalidSize),
            r is Ok ==> {
                let c = r->Ok_0;
                &&& c@.half_width == width / 2
                &&& c@.half_height == height / 2
                &&& c@.well_formed()
                &&& forall|i: int|
                    0 <= i < c@.colors.len() ==> c@.colors[i] == (Color { r: 0, g: 0, b: 0 })
                &&& c.viewport() == (Viewport {
                    width: width as int,
                    height: height as int,
                    viewport_width: ONE_RAW as int,
                    viewport_height: ONE_RAW as int,
                    viewport_distance: ONE_RAW as int,
                })
            },
    {
        if width == 0 || height == 0 || width > MAX_SIDE || height > MAX_SIDE {
            return Err(RenderError::InvalidSize);
        }
        let half_width: i32 = (width / 2) as i32;
        let half_height: i32 = (height / 2) as i32;
        let columns: usize = 2 * (half_width as usize) + 1;
        let rows: usize = 2 * (half_height as usize) + 1;
        proof {
            lemma_mul_bound(columns as int, rows as int, 16385, 16385);
        }
        let total: usize = columns * rows;
        let mut colors: Vec<Color> = Vec::new();
        let mut i: usize = 0;
        while i < total
            invariant
                i <= total,
                colors@.len() == i,
                forall|j: int| 0 <= j < i ==> colors@[j] == (Color { r: 0, g: 0, b: 0 }),
            decreases total - i,
        {
            colors.push(Color::black());
            i = i + 1;
        }
        Ok(
            Canvas {
                width,
                height,
                half_width,
                half_height,
                viewport_width: Fixed::one(),
                viewport_height: Fixed::one(),
                viewport_distance: Fixed::one(),
                colors,
            },
        )
    }

    /// Half the width of the window, rounded down: the largest `x` on the canvas.
    pub fn get_half_width(&self) -> (r: i32)
        ensures
            r == self@.half_width,
            0 <= r <= 8192,
            self@.well_formed(),
    {
        proof {
            use_type_invariant(self);
        }
        self.half_width
    }

    /// Half the height of the window, rounded down: the largest `y` on the canvas.
    pub fn get_half_height(&self) -> (r: i32)
        ensures
            r == self@.half_height,
            0 <= r <= 8192,
            self@.well_formed(),
    {
        proof {
            use_type_invariant(self);
        }
        self.half_height
    }

    /// The color of the point `(x, y)`, or `None` when it is not on the canvas.
    pub fn get_pixel(&self, x: i32, y: i32) -> (r: Option<Color>)
        ensures
            self@.well_formed(),
            r == if self@.contains(x as int, y as int) {
                Some(self@.color_at(x as int, y as int))
            } else {
                None
            },
    {
        proof {
            use_type_invariant(self);
        }
        if x < -self.half_width || x > self.half_width || y < -self.half_height || y
            > self.half_height {
            return None;
        }
        proof {
            lemma_index_in_bounds(self@, x as int, y as int);
            lemma_mul_bound(self.half_height - y, 2 * self.half_width + 1, 16384, 16385);
        }
        let columns: usize = 2 * (self.half_width as usize) + 1;
        let index: usize = ((self.half_height - y) as usize) * columns + ((x + self.half_width) as usize);
        Some(self.colors[index])
    }

    /// Paints the whole canvas in one color.
    pub fn clear(&mut self, color: Color)
        ensures
            final(self)@.half_width == old(self)@.half_width,
            final(self)@.half_height == old(self)@.half_height,
            final(self)@.colors.len() == old(self)@.colors.len(),
            forall|i: int| 0 <= i < final(self)@.colors.len() ==> final(self)@.colors[i] == color,
            final(self).viewport() == old(self).viewport(),
    {
        proof {
            use_type_invariant(&*self);
        }
        let total = self.colors.len();
        let mut i: usize = 0;
        while i < total
            invariant
                i <= total,
                total == self.colors@.len(),
                self.colors@.len() == old(self).colors@.len(),
                self.width == old(self).width,
                self.height == old(self).height,
                self.half_width == old(self).half_width,
                self.half_height == old(self).half_height,
                self.viewport_width == old(self).viewport_width,
                self.viewport_height == old(self).viewport_height,
                self.viewport_distance == old(self).viewport_distance,
                old(self).consistent(),
                forall|j: int| 0 <= j < i ==> self.colors@[j] == color,
            decreases total - i,
        {
            self.colors[i] = color;
            i = i + 1;
        }
    }

    /// Writes the color of the point `(x, y)`. A point that is not on the
    /// canvas is refused and leaves the canvas as it was.
    pub fn put_pixel(&mut self, x: i32, y: i32, color: Color) -> (r: Result<(), RenderError>)
        ensures
            old(self)@.contains(x as int, y as int) ==> r == Ok::<(), RenderError>(())
                && final(self)@ == old(self)@.put(Pixel { x, y, color }),
            !old(self)@.contains(x as int, y as int) ==> r == Err::<(), RenderError>(
                RenderError::OutOfBounds,
            ) && final(self)@ == old(self)@,
            final(self).viewport() == old(self).viewport(),
    {
        proof {
            use_type_invariant(&*self);
        }
        if x < -self.half_width || x > self.half_width || y < -self.half_height || y
            > self.half_height {
            return Err(RenderError::OutOfBounds);
        }
        proof {
            lemma_index_in_bounds(self@, x as int, y as int);
            lemma_mul_bound(self.half_height - y, 2 * self.half_width + 1, 16384, 16385);
        }
        let columns: usize = 2 * (self.half_width as usize) + 1;
        let index: usize = ((self.half_height - y) as usize) * columns + ((x + self.half_width) as usize);
        self.colors[index] = color;
        Ok(())
    }

    /// Writes the pixels of `dots` in order and stops at the first one that is
    /// not on the canvas: the pixels before it stay written, the rest are not.
    pub fn plot_all(&mut self, dots: &Vec<Pixel>) -> (r: Result<(), RenderError>)
        ensures
            final(self)@ == old(self)@.plot(dots@),
            r == old(self)@.plot_result(dots@),
            final(self).viewport() == old(self).viewport(),
    {
        proof {
            use_type_invariant(&*self);
        }
        let mut i: usize = 0;
        while i < dots.len()
            invariant
                i <= dots@.len(),
                old(self)@.well_formed(),
                self@ == old(self)@.painted(dots@, i as nat),
                self.viewport() == old(self).viewport(),
                forall|j: int|
                    0 <= j < i ==> old(self)@.contains((#[trigger] dots@[j]).x as int, dots@[j].y as int),
            decreases dots@.len() - i,
        {
            proof {
                lemma_painted_shape(old(self)@, dots@, i as nat);
            }
            let dot = dots[i];
            match self.put_pixel(dot.x, dot.y, dot.color) {
                Ok(()) => {},
                Err(e) => {
                    proof {
                        lemma_first_outside_skips(old(self)@, dots@, 0, i as nat);
                    }
                    return Err(e);
                },
            }
            i = i + 1;
        }
        proof {
            lemma_first_outside_skips(old(self)@, dots@, 0, i as nat);
        }
        Ok(())
    }

    /// Writes those of the pixels of `dots` that are on the canvas, in order,
    /// and passes over the others.
    pub fn plot_visible(&mut self, dots: &Vec<Pixel>)
        ensures
            final(self)@ == old(self)@.plot(old(self)@.visible(dots@)),
            final(self).viewport() == old(self).viewport(),
    {
        proof {
            use_type_invariant(&*self);
        }
        let mut i: usize = 0;
        while i < dots.len()
            invariant
                i <= dots@.len(),
                old(self)@.well_formed(),
                self@ == old(self)@.painted(
                    old(self)@.visible_among(dots@, i as nat),
                    old(self)@.visible_among(dots@, i as nat).len(),
                ),
                self.viewport() == old(self).viewport(),
            decreases dots@.len() - i,
        {
            let dot = dots[i];
            proof {
                let seen = old(self)@.visible_among(dots@, i as nat);
                lemma_visible(old(self)@, dots@, i as nat);
                lemma_painted_shape(old(self)@, seen, seen.len());
                if old(self)@.contains(dot.x as int, dot.y as int) {
                    lemma_painted_prefix(old(self)@, seen.push(dot), seen, seen.len());
                }
            }
            match self.put_pixel(dot.x, dot.y, dot.color) {
                Ok(()) => {},
                Err(_) => {},
            }
            i = i + 1;
        }
        proof {
            let seen = old(self)@.visible(dots@);
            lemma_visible(old(self)@, dots@, dots@.len());
            lemma_plot_accepted(old(self)@, seen);
        }
    }

    /// Draws the part of the line from `v0` to `v1` that is on the canvas.
    pub fn draw_line_visible(&mut self, v0: Vec3, v1: Vec3, color: Color)
        ensures
            final(self)@ == old(self)@.plot(old(self)@.visible(line_dots(v0@, v1@, color))),
            final(self).viewport() == old(self).viewport(),
    {
        let dots = line_pixels(v0, v1, color);
        self.plot_visible(&dots)
    }

    /// Draws the part of the outline of a triangle that is on the canvas.
    pub fn draw_wireframe_triangle_visible(&mut self, v0: Vec3, v1: Vec3, v2: Vec3, color: Color)
        ensures
            final(self)@ == old(self)@.plot(
                old(self)@.visible(wireframe_dots(v0@, v1@, v2@, color)),
            ),
            final(self).viewport() == old(self).viewport(),
    {
        let mut dots = line_pixels(v0, v1, color);
        append_pixels(&mut dots, &line_pixels(v1, v2, color));
        append_pixels(&mut dots, &line_pixels(v2, v0, color));
        self.plot_visible(&dots)
    }

    /// Fills the part of a triangle that is on the canvas with one color.
    pub fn draw_filled_triangle_visible(&mut self, v0: Vec3, v1: Vec3, v2: Vec3, color: Color)
        ensures
            final(self)@ == old(self)@.plot(
                old(self)@.visible(filled_triangle_dots(v0@, v1@, v2@, color)),
            ),
            final(self).viewport() == old(self).viewport(),
    {
        self.draw_shaded_triangle_visible(
            Vec3 { x: v0.x, y: v0.y, z: Fixed::one() },
            Vec3 { x: v1.x, y: v1.y, z: Fixed::one() },
            Vec3 { x: v2.x, y: v2.y, z: Fixed::one() },
            color,
        )
    }

    /// Fills the part of a shaded triangle that is on the canvas.
    pub fn draw_shaded_triangle_visible(&mut self, v0: Vec3, v1: Vec3, v2: Vec3, color: Color)
        ensures
            final(self)@ == old(self)@.plot(
                old(self)@.visible(triangle_dots(v0@, v1@, v2@, color)),
            ),
            final(self).viewport() == old(self).viewport(),
    {
        let dots = shaded_triangle_pixels(v0, v1, v2, color);
        self.plot_visible(&dots)
    }

    /// Maps the canvas point `(x, y)` to the viewport plane in camera space,
    /// on the fine scale.
    pub fn to_viewport(&self, x: i32, y: i32) -> (v: FinePoint)
        ensures
            v@ == self.viewport().to_viewport(x as int, y as int),
    {
        proof {
            use_type_invariant(self);
        }
        let vw = self.viewport_width.raw();
        let vh = self.viewport_height.raw();
        let vd = self.viewport_distance.raw();
        proof {
            lemma_mul_bound(x as int, vw as int, 0x8000_0000, MAX_RAW as int);
            lemma_mul_bound(y as int, vh as int, 0x8000_0000, MAX_RAW as int);
            lemma_mul_bound(x * vw, FINE_PER_RAW as int, 0x8000_0000 * MAX_RAW, FINE_PER_RAW as int);
            lemma_mul_bound(y * vh, FINE_PER_RAW as int, 0x8000_0000 * MAX_RAW, FINE_PER_RAW as int);
            lemma_mul_bound(vd as int, FINE_PER_RAW as int, MAX_RAW as int, FINE_PER_RAW as int);
            assert(0x8000_0000 * MAX_RAW * FINE_PER_RAW <= 0x8000_0000_0000_0000_0000int)
                by (nonlinear_arith);
            assert(MAX_RAW * FINE_PER_RAW == FINE_MAX_RAW) by (nonlinear_arith);
        }
        let vx = div_toward_zero(
            x as i128 * vw as i128 * FINE_PER_RAW as i128,
            self.width as i128,
        );
        let vy = div_toward_zero(
            y as i128 * vh as i128 * FINE_PER_RAW as i128,
            self.height as i128,
        );
        FinePoint::from_raw(clamp_to_i64(vx), clamp_to_i64(vy), vd * FINE_PER_RAW)
    }

    /// Maps the viewport point `(x, y)` back to canvas coordinates.
    pub fn from_viewport(&self, x: Fixed, y: Fixed) -> (v: Vec3)
        ensures
            v@ == self.viewport().from_viewport(x@, y@),
    {
        proof {
            use_type_invariant(self);
            lemma_mul_bound(self.width as int, ONE_RAW as int, 16384, ONE_RAW as int);
            lemma_mul_bound(self.height as int, ONE_RAW as int, 16384, ONE_RAW as int);
        }
        let w = Fixed::from_raw(self.width as i64 * ONE_RAW);
        let h = Fixed::from_raw(self.height as i64 * ONE_RAW);
        Vec3 {
            x: x.mul_div(w, self.viewport_width),
            y: y.mul_div(h, self.viewport_height),
            z: self.viewport_distance,
        }
    }

    /// Projects the camera-space point `v` of the fine scale onto the canvas.
    /// The third component of the result is the viewport distance, which the
    /// shaded triangle takes as the shading attribute. A point at the depth
    /// zero is projected to the bounds.
    pub fn project(&self, v: &FinePoint) -> (p: Vec3)
        ensures
            p@ == self.viewport().project(v@),
    {
        proof {
            use_type_invariant(self);
        }
        let (x, y, z) = v.raw();
        Vec3 {
            x: self.project_one(x, z, self.width, self.viewport_width),
            y: self.project_one(y, z, self.height, self.viewport_height),
            z: self.viewport_distance,
        }
    }

    fn project_one(&self, c: i64, z: i64, side: u32, viewport_side: Fixed) -> (r: Fixed)
        requires
            -FINE_MAX_RAW <= c <= FINE_MAX_RAW,
            -FINE_MAX_RAW <= z <= FINE_MAX_RAW,
            side <= MAX_SIDE,
        ensures
            r@ == self.viewport().project_coordinate(
                c as int,
                z as int,
                side as int,
                viewport_side@,
            ),
    {
        let d = self.viewport_distance.raw();
        let vs = viewport_side.raw();
        proof {
            lemma_mul_bound(c as int, d as int, FINE_MAX_RAW as int, MAX_RAW as int);
            lemma_mul_bound(side as int, ONE_RAW as int, 16384, ONE_RAW as int);
            lemma_mul_bound(c * d, side * ONE_RAW, FINE_MAX_RAW * MAX_RAW, 16384 * ONE_RAW);
            lemma_mul_bound(z as int, vs as int, FINE_MAX_RAW as int, MAX_RAW as int);
            assert(FINE_MAX_RAW * MAX_RAW == 0x4_0000_0000_0000_0000_00int) by (nonlinear_arith);
            assert((FINE_MAX_RAW * MAX_RAW) * (16384 * ONE_RAW)
                == 0x1_0000_0000_0000_0000_0000_0000_00int) by (nonlinear_arith);
        }
        let num: i128 = c as i128 * d as i128 * (side as i128 * ONE_RAW as i128);
        let den: i128 = z as i128 * vs as i128;
        if den == 0 {
            proof {
                if num > 0 {
                    assert(num * MAX_RAW >= MAX_RAW) by (nonlinear_arith)
                        requires
                            num >= 1,
                    ;
                } else if num < 0 {
                    assert(num * MAX_RAW <= -MAX_RAW) by (nonlinear_arith)
                        requires
                            num <= -1,
                    ;
                } else {
                    assert(num * MAX_RAW == 0);
                }
            }
            if num > 0 {
                Fixed::max_value()
            } else if num < 0 {
                Fixed::min_value()
            } else {
                Fixed::zero()
            }
        } else {
            Fixed::from_raw(saturate_wide(div_toward_zero(num, den)))
        }
    }

    /// Draws the line from `v0` to `v1`. Only the first two components of the
    /// ends count. Drawing stops at the first pixel that is not on the canvas.
    pub fn draw_line(&mut self, v0: Vec3, v1: Vec3, color: Color) -> (r: Result<(), RenderError>)
        ensures
            final(self)@ == old(self)@.plot(line_dots(v0@, v1@, color)),
            r == old(self)@.plot_result(line_dots(v0@, v1@, color)),
            final(self).viewport() == old(self).viewport(),
    {
        let dots = line_pixels(v0, v1, color);
        self.plot_all(&dots)
    }

    /// Draws the three sides of a triangle: from `v0` to `v1`, from `v1` to
    /// `v2` and from `v2` back to `v0`. Drawing stops at the first pixel that is
    /// not on the canvas.
    pub fn draw_wireframe_triangle(&mut self, v0: Vec3, v1: Vec3, v2: Vec3, color: Color) -> (r:
        Result<(), RenderError>)
        ensures
            final(self)@ == old(self)@.plot(wireframe_dots(v0@, v1@, v2@, color)),
            r == old(self)@.plot_result(wireframe_dots(v0@, v1@, v2@, color)),
            final(self).viewport() == old(self).viewport(),
    {
        proof {
            let a = line_dots(v0@, v1@, color);
            let b = line_dots(v1@, v2@, color);
            let c = line_dots(v2@, v0@, color);
            lemma_plot_concat(old(self)@, a, b);
            lemma_plot_concat(old(self)@, a + b, c);
        }
        match self.draw_line(v0, v1, color) {
            Ok(()) => {},
            Err(e) => {
                return Err(e);
            },
        }
        match self.draw_line(v1, v2, color) {
            Ok(()) => {},
            Err(e) => {
                return Err(e);
            },
        }
        self.draw_line(v2, v0, color)
    }

    /// Fills a triangle with one color: a shaded triangle whose shading
    /// attribute is one at every vertex.
    pub fn draw_filled_triangle(&mut self, v0: Vec3, v1: Vec3, v2: Vec3, color: Color) -> (r:
        Result<(), RenderError>)
        ensures
            final(self)@ == old(self)@.plot(filled_triangle_dots(v0@, v1@, v2@, color)),
            r == old(self)@.plot_result(filled_triangle_dots(v0@, v1@, v2@, color)),
            final(self).viewport() == old(self).viewport(),
    {
        self.draw_shaded_triangle(
            Vec3 { x: v0.x, y: v0.y, z: Fixed::one() },
            Vec3 { x: v1.x, y: v1.y, z: Fixed::one() },
            Vec3 { x: v2.x, y: v2.y, z: Fixed::one() },
            color,
        )
    }

    /// Fills a triangle row by row from its lowest vertex to its highest, each
    /// row from left to right. The third component of a vertex is its shading
    /// attribute: it is interpolated over the triangle, and each pixel gets the
    /// base color scaled by it. Drawing stops at the first pixel that is not on
    /// the canvas.
    pub fn draw_shaded_triangle(&mut self, v0: Vec3, v1: Vec3, v2: Vec3, color: Color) -> (r:
        Result<(), RenderError>)
        ensures
            final(self)@ == old(self)@.plot(triangle_dots(v0@, v1@, v2@, color)),
            r == old(self)@.plot_result(triangle_dots(v0@, v1@, v2@, color)),
            final(self).viewport() == old(self).viewport(),
    {
        let dots = shaded_triangle_pixels(v0, v1, v2, color);
        self.plot_all(&dots)
    }

    /// Draws a mesh whose vertices are given in camera space: the vertices are
    /// projected to the canvas, and the triangles are drawn in order as shaded
    /// triangles, up to the first error.
    pub fn render_object(&mut self, vertices: &Vec<Vec3>, triangles: &Vec<Triangle>) -> (r: Result<
        (),
        RenderError,
    >)
        ensures
            final(self)@ == draw_mesh(
                old(self)@,
                faces_of(triangles@),
                project_each(views(vertices@), old(self).viewport()),
                triangles@.len(),
                false,
            ).surface,
            r == draw_mesh(
                old(self)@,
                faces_of(triangles@),
                project_each(views(vertices@), old(self).viewport()),
                triangles@.len(),
                false,
            ).result(),
            final(self).viewport() == old(self).viewport(),
    {
        self.render_object_with(vertices, triangles, false)
    }

    /// Draws the part of a mesh that is on the canvas: as
    /// [`render_object`](Canvas::render_object), but a pixel outside the canvas
    /// is passed over.
    pub fn render_object_visible(&mut self, vertices: &Vec<Vec3>, triangles: &Vec<Triangle>) -> (r: Result<
        (),
        RenderError,
    >)
        ensures
            final(self)@ == draw_mesh(
                old(self)@,
                faces_of(triangles@),
                project_each(views(vertices@), old(self).viewport()),
                triangles@.len(),
                true,
            ).surface,
            r == draw_mesh(
                old(self)@,
                faces_of(triangles@),
                project_each(views(vertices@), old(self).viewport()),
                triangles@.len(),
                true,
            ).result(),
            final(self).viewport() == old(self).viewport(),
    {
        self.render_object_with(vertices, triangles, true)
    }

    /// Draws a mesh whose vertices are given in camera space: the vertices are
    /// projected to the canvas, and the triangles are drawn in order as shaded
    /// triangles, up to the first error.
    /// With `skip_outside`, a pixel outside the canvas is passed over where it
    /// would otherwise stop the drawing.
    fn render_object_with(
        &mut self,
        vertices: &Vec<Vec3>,
        triangles: &Vec<Triangle>,
        skip_outside: bool,
    ) -> (r: Result<(), RenderError>)
        ensures
            final(self)@ == draw_mesh(
                old(self)@,
                faces_of(triangles@),
                project_each(views(vertices@), old(self).viewport()),
                triangles@.len(),
                skip_outside,
            ).surface,
            r == draw_mesh(
                old(self)@,
                faces_of(triangles@),
                project_each(views(vertices@), old(self).viewport()),
                triangles@.len(),
                skip_outside,
            ).result(),
            final(self).viewport() == old(self).viewport(),
    {
        let mut projected: Vec<Vec3> = Vec::new();
        let mut i: usize = 0;
        while i < vertices.len()
            invariant
                i <= vertices@.len(),
                projected@.len() == i,
                forall|j: int|
                    0 <= j < i ==> (#[trigger] projected@[j])@ == self.viewport().project(
                        v3_fine(vertices@[j]@),
                    ),
            decreases vertices@.len() - i,
        {
            projected.push(self.project(&FinePoint::from_vec3(vertices[i])));
            i = i + 1;
        }
        assert(views(projected@) =~= project_each(views(vertices@), self.viewport()));
        render_mesh_with(self, &projected, triangles, skip_outside)
    }
}

} // verus!
