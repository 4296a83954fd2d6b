//! Scanline rasterization: which pixels a line and a shaded triangle cover, and
//! in which order they are drawn.
use crate::arith::abs;
use crate::color::{color_scale, Color};
use crate::fixed::{in_range, integer_part, lemma_integer_part_bound, Fixed, ONE_RAW};
use crate::math::{interpolate, interpolate_at, interpolate_len};
use crate::surface::Pixel;
use crate::vector::{v3_in_range, Vec3, V3};
use vstd::prelude::*;

verus! {

/// Whether a line covers more columns than rows, so that it is drawn column
/// by column.
pub open spec fn line_is_wide(v0: V3, v1: V3) -> bool {
    abs(v1.x - v0.x) > abs(v1.y - v0.y)
}

/// The end of a line that is drawn first: the left end of a wide line and
/// the lower end of a tall one.
pub open spec fn line_start(v0: V3, v1: V3) -> V3 {
    if line_is_wide(v0, v1) {
        if v0.x > v1.x {
            v1
        } else {
            v0
        }
    } else {
        if v0.y > v1.y {
            v1
        } else {
            v0
        }
    }
}

/// The end of a line that is drawn last.
pub open spec fn line_end(v0: V3, v1: V3) -> V3 {
    if line_start(v0, v1) == v0 {
        v1
    } else {
        v0
    }
}

/// The pixels of the line from `v0` to `v1`, in drawing order. A wide line has
/// one pixel in each column from its left end to its right end, whose `y` is
/// interpolated between the ends and rounded toward zero; a tall line has one
/// pixel in each row from its lower end to its upper end, with `x` interpolated.
pub open spec fn line_dots(v0: V3, v1: V3, color: Color) -> Seq<Pixel> {
    let a = line_start(v0, v1);
    let b = line_end(v0, v1);
    if line_is_wide(v0, v1) {
        let x0 = integer_part(a.x);
        let x1 = integer_part(b.x);
        Seq::new(
            interpolate_len(x0, x1),
            |k: int|
                Pixel {
                    x: (x0 + k) as i32,
                    y: integer_part(interpolate_at(x0, a.y, x1, b.y, k)) as i32,
                    color,
                },
        )
    } else {
        let y0 = integer_part(a.y);
        let y1 = integer_part(b.y);
        Seq::new(
            interpolate_len(y0, y1),
            |k: int|
                Pixel {
                    x: integer_part(interpolate_at(y0, a.x, y1, b.x, k)) as i32,
                    y: (y0 + k) as i32,
                    color,
                },
        )
    }
}

/// The integer part does not decrease when the number grows.
pub proof fn lemma_integer_part_monotone(a: int, b: int)
    requires
        a <= b,
    ensures
        integer_part(a) <= integer_part(b),
{
    let aa = abs(a);
    let bb = abs(b);
    assert(aa / 65536 >= 0 && bb / 65536 >= 0) by (nonlinear_arith)
        requires
            aa >= 0,
            bb >= 0,
    ;
    if a >= 0 {
        assert(a / 65536 <= b / 65536) by (nonlinear_arith)
            requires
                0 <= a <= b,
        ;
    } else if b < 0 {
        assert(bb / 65536 <= aa / 65536) by (nonlinear_arith)
            requires
                0 <= bb <= aa,
        ;
    }
}

/// Computes the pixels of the line from `v0` to `v1` in drawing order.
pub fn line_pixels(v0: Vec3, v1: Vec3, color: Color) -> (dots: Vec<Pixel>)
    ensures
        dots@ == line_dots(v0@, v1@, color),
{
    let dx: i64 = v1.x.raw() - v0.x.raw();
    let dy: i64 = v1.y.raw() - v0.y.raw();
    let wide = (if dx < 0 {
        -dx
    } else {
        dx
    }) > (if dy < 0 {
        -dy
    } else {
        dy
    });
    let swap = if wide {
        v0.x.raw() > v1.x.raw()
    } else {
        v0.y.raw() > v1.y.raw()
    };
    let a = if swap {
        v1
    } else {
        v0
    };
    let b = if swap {
        v0
    } else {
        v1
    };
    let mut dots: Vec<Pixel> = Vec::new();
    if wide {
        let x0 = a.x.to_int();
        let x1 = b.x.to_int();
        let ys = interpolate(x0, a.y, x1, b.y);
        let mut k: usize = 0;
        while k < ys.len()
            invariant
                k <= ys@.len(),
                ys@.len() == interpolate_len(x0 as int, x1 as int),
                -16384 <= x0 <= 16384,
                -16384 <= x1 <= 16384,
                dots@.len() == k,
                forall|j: int|
                    0 <= j < ys@.len() ==> #[trigger] ys@[j]@ == interpolate_at(
                        x0 as int,
                        a.y@,
                        x1 as int,
                        b.y@,
                        j,
                    ),
                forall|j: int|
                    0 <= j < k ==> #[trigger] dots@[j] == (Pixel {
                        x: (x0 + j) as i32,
                        y: integer_part(interpolate_at(x0 as int, a.y@, x1 as int, b.y@, j)) as i32,
                        color,
                    }),
            decreases ys@.len() - k,
        {
            let y = ys[k].to_int();
            dots.push(Pixel { x: x0 + k as i32, y, color });
            k = k + 1;
        }
    } else {
        let y0 = a.y.to_int();
        let y1 = b.y.to_int();
        let xs = interpolate(y0, a.x, y1, b.x);
        let mut k: usize = 0;
        while k < xs.len()
            invariant
                k <= xs@.len(),
                xs@.len() == interpolate_len(y0 as int, y1 as int),
                -16384 <= y0 <= 16384,
                -16384 <= y1 <= 16384,
                dots@.len() == k,
                forall|j: int|
                    0 <= j < xs@.len() ==> #[trigger] xs@[j]@ == interpolate_at(
                        y0 as int,
                        a.x@,
                        y1 as int,
                        b.x@,
                        j,
                    ),
                forall|j: int|
                    0 <= j < k ==> #[trigger] dots@[j] == (Pixel {
                        x: integer_part(interpolate_at(y0 as int, a.x@, y1 as int, b.x@, j)) as i32,
                        y: (y0 + j) as i32,
                        color,
                    }),
            decreases xs@.len() - k,
        {
            let x = xs[k].to_int();
            dots.push(Pixel { x, y: y0 + k as i32, color });
            k = k + 1;
        }
    }
    dots
}

/// The three vertices ordered by ascending `y`. Vertices with the same `y`
/// keep the order in which they were given.
pub open spec fn sort_by_y(v0: V3, v1: V3, v2: V3) -> (V3, V3, V3) {
    let a0 = if v1.y < v0.y {
        v1
    } else {
        v0
    };
    let a1 = if v1.y < v0.y {
        v0
    } else {
        v1
    };
    let b0 = if v2.y < a0.y {
        v2
    } else {
        a0
    };
    let b2 = if v2.y < a0.y {
        a0
    } else {
        v2
    };
    let c1 = if b2.y < a1.y {
        b2
    } else {
        a1
    };
    let c2 = if b2.y < a1.y {
        a1
    } else {
        b2
    };
    (b0, c1, c2)
}

/// The value that an attribute has `k` rows above the lowest vertex on the
/// long side of a triangle, which joins the lowest vertex to the highest. The
/// attribute is `a0` at row `y0` and `a2` at row `y2`.
pub open spec fn long_side_at(y0: int, a0: int, y2: int, a2: int, k: int) -> int {
    interpolate_at(y0, a0, y2, a2, k)
}

/// The value that an attribute has `k` rows above the lowest vertex on the two
/// short sides of a triangle, which run from the lowest vertex to the middle
/// one and on to the highest. The row of the middle vertex belongs to the
/// upper side.
pub open spec fn short_sides_at(
    y0: int,
    a0: int,
    y1: int,
    a1: int,
    y2: int,
    a2: int,
    k: int,
) -> int {
    if k < y1 - y0 {
        interpolate_at(y0, a0, y1, a1, k)
    } else {
        interpolate_at(y1, a1, y2, a2, k - (y1 - y0))
    }
}

/// One row of a triangle: the raw `x` and the shading attribute at its left
/// and at its right boundary.
pub struct Span {
    pub x_left: int,
    pub h_left: int,
    pub x_right: int,
    pub h_right: int,
}

/// Whether the long side of the triangle with the sorted vertices `low`, `mid`,
/// `high` is its left boundary: it is when, in the middle row, it lies strictly
/// left of the short sides.
pub open spec fn long_side_is_left(low: V3, mid: V3, high: V3) -> bool {
    let y0 = integer_part(low.y);
    let y1 = integer_part(mid.y);
    let y2 = integer_part(high.y);
    let m = (y2 - y0 + 1) / 2;
    long_side_at(y0, low.x, y2, high.x, m) < short_sides_at(y0, low.x, y1, mid.x, y2, high.x, m)
}

/// The row `k` rows above the lowest vertex of the triangle with the sorted
/// vertices `low`, `mid`, `high`, whose third components are the shading
/// attributes.
pub open spec fn triangle_span(low: V3, mid: V3, high: V3, k: int) -> Span {
    let y0 = integer_part(low.y);
    let y1 = integer_part(mid.y);
    let y2 = integer_part(high.y);
    let long_x = long_side_at(y0, low.x, y2, high.x, k);
    let long_h = long_side_at(y0, low.z, y2, high.z, k);
    let short_x = short_sides_at(y0, low.x, y1, mid.x, y2, high.x, k);
    let short_h = short_sides_at(y0, low.z, y1, mid.z, y2, high.z, k);
    if long_side_is_left(low, mid, high) {
        Span { x_left: long_x, h_left: long_h, x_right: short_x, h_right: short_h }
    } else {
        Span { x_left: short_x, h_left: short_h, x_right: long_x, h_right: long_h }
    }
}

/// The pixels of one row at height `y`, from left to right: one for each column
/// from the left boundary to the right one, in the base color scaled by the
/// attribute interpolated between the boundaries. A row whose left boundary
/// lies right of its right boundary has no pixels.
pub open spec fn span_dots(span: Span, y: int, color: Color) -> Seq<Pixel> {
    let xl = integer_part(span.x_left);
    let xr = integer_part(span.x_right);
    Seq::new(
        interpolate_len(xl, xr),
        |j: int|
            Pixel {
                x: (xl + j) as i32,
                y: y as i32,
                color: color_scale(color, interpolate_at(xl, span.h_left, xr, span.h_right, j)),
            },
    )
}

/// The pixels of the lowest `n` rows of the triangle with the sorted vertices
/// `low`, `mid`, `high`, row after row from the bottom.
pub open spec fn triangle_rows(low: V3, mid: V3, high: V3, color: Color, n: nat) -> Seq<Pixel>
    decreases n,
{
    if n == 0 {
        Seq::empty()
    } else {
        triangle_rows(low, mid, high, color, (n - 1) as nat) + span_dots(
            triangle_span(low, mid, high, n - 1),
            integer_part(low.y) + n - 1,
            color,
        )
    }
}

/// The pixels of the shaded triangle with the vertices `v0`, `v1`, `v2`, in
/// drawing order: its rows from the lowest vertex to the highest, each from
/// left to right. The third component of a vertex is its shading attribute.
pub open spec fn triangle_dots(v0: V3, v1: V3, v2: V3, color: Color) -> Seq<Pixel> {
    let (low, mid, high) = sort_by_y(v0, v1, v2);
    triangle_rows(
        low,
        mid,
        high,
        color,
        interpolate_len(integer_part(low.y), integer_part(high.y)),
    )
}

/// The pixels of the outline of a triangle: its three sides one after the
/// other, from `v0` to `v1`, from `v1` to `v2` and from `v2` to `v0`.
pub open spec fn wireframe_dots(v0: V3, v1: V3, v2: V3, color: Color) -> Seq<Pixel> {
    line_dots(v0, v1, color) + line_dots(v1, v2, color) + line_dots(v2, v0, color)
}

/// The vertex `v` with the shading attribute one.
pub open spec fn fully_lit(v: V3) -> V3 {
    V3 { x: v.x, y: v.y, z: ONE_RAW as int }
}

/// The pixels of a triangle filled with one color: those of the shaded
/// triangle whose shading attribute is one at every vertex.
pub open spec fn filled_triangle_dots(v0: V3, v1: V3, v2: V3, color: Color) -> Seq<Pixel> {
    triangle_dots(fully_lit(v0), fully_lit(v1), fully_lit(v2), color)
}

/// Sorting by `y` permutes the vertices and puts them in ascending order.
pub proof fn lemma_sort_by_y(v0: V3, v1: V3, v2: V3)
    ensures
        ({
            let (low, mid, high) = sort_by_y(v0, v1, v2);
            &&& low.y <= mid.y <= high.y
            &&& ((low == v0 && mid == v1 && high == v2) || (low == v0 && mid == v2 && high == v1) || (low
                == v1 && mid == v0 && high == v2) || (low == v1 && mid == v2 && high == v0) || (low == v2
                && mid == v0 && high == v1) || (low == v2 && mid == v1 && high == v0))
        }),
{
}

/// Every pixel of the lowest `n` rows of a triangle lies in one of those rows.
pub proof fn lemma_triangle_rows_within(low: V3, mid: V3, high: V3, color: Color, n: nat, i: int)
    requires
        in_range(low.y),
        n <= 32769,
        0 <= i < triangle_rows(low, mid, high, color, n).len(),
    ensures
        integer_part(low.y) <= triangle_rows(low, mid, high, color, n)[i].y < integer_part(low.y) + n,
    decreases n,
{
    lemma_integer_part_bound(low.y);
    if n > 0 {
        let below = triangle_rows(low, mid, high, color, (n - 1) as nat);
        if i < below.len() {
            lemma_triangle_rows_within(low, mid, high, color, (n - 1) as nat, i);
        }
    }
}

/// A triangle without height is drawn as a single row: when its three
/// vertices lie in the same row, so does every pixel, and the pixels are
/// those of the lowest row from its left boundary to its right one. The same
/// holds of any triangle for the rows between its lowest and its highest
/// vertex: no pixel lies outside them.
pub proof fn lemma_flat_triangle_is_one_row(v0: V3, v1: V3, v2: V3, color: Color)
    requires
        v3_in_range(v0),
        v3_in_range(v1),
        v3_in_range(v2),
    ensures
        ({
            let (low, mid, high) = sort_by_y(v0, v1, v2);
            let dots = triangle_dots(v0, v1, v2, color);
            &&& forall|i: int|
                0 <= i < dots.len() ==> integer_part(low.y) <= (#[trigger] dots[i]).y
                    <= integer_part(high.y)
            &&& integer_part(v0.y) == integer_part(v1.y) && integer_part(v1.y) == integer_part(v2.y)
                ==> {
                &&& dots == span_dots(triangle_span(low, mid, high, 0), integer_part(v0.y), color)
                &&& forall|i: int| 0 <= i < dots.len() ==> (#[trigger] dots[i]).y == integer_part(v0.y)
            }
        }),
{
    let (low, mid, high) = sort_by_y(v0, v1, v2);
    let dots = triangle_dots(v0, v1, v2, color);
    lemma_sort_by_y(v0, v1, v2);
    lemma_integer_part_bound(low.y);
    lemma_integer_part_bound(high.y);
    let n = interpolate_len(integer_part(low.y), integer_part(high.y));
    assert forall|i: int| 0 <= i < dots.len() implies integer_part(low.y) <= (#[trigger] dots[i]).y
        <= integer_part(high.y) by {
        lemma_triangle_rows_within(low, mid, high, color, n, i);
    }
    if integer_part(v0.y) == integer_part(v1.y) && integer_part(v1.y) == integer_part(v2.y) {
        assert(triangle_rows(low, mid, high, color, 0) =~= Seq::<Pixel>::empty());
    }
}

/// Between two equal values every interpolated value is that value.
pub proof fn lemma_interpolate_constant(i0: int, d: int, i1: int, k: int)
    ensures
        interpolate_at(i0, d, i1, d, k) == d,
{
    if i0 != i1 {
        let n = crate::arith::abs(i1 - i0);
        assert(0int / n == 0) by (nonlinear_arith)
            requires
                n > 0,
        ;
    }
}

proof fn lemma_fully_lit_rows(low: V3, mid: V3, high: V3, color: Color, n: nat, i: int)
    requires
        low.z == ONE_RAW,
        mid.z == ONE_RAW,
        high.z == ONE_RAW,
        0 <= i < triangle_rows(low, mid, high, color, n).len(),
    ensures
        triangle_rows(low, mid, high, color, n)[i].color == color,
    decreases n,
{
    if n > 0 {
        let below = triangle_rows(low, mid, high, color, (n - 1) as nat);
        if i < below.len() {
            lemma_fully_lit_rows(low, mid, high, color, (n - 1) as nat, i);
        } else {
            let y0 = integer_part(low.y);
            let y1 = integer_part(mid.y);
            let y2 = integer_part(high.y);
            let one = ONE_RAW as int;
            let k = n - 1;
            lemma_interpolate_constant(y0, one, y2, k);
            lemma_interpolate_constant(y0, one, y1, k);
            lemma_interpolate_constant(y1, one, y2, k - (y1 - y0));
            let span = triangle_span(low, mid, high, k);
            let j = i - below.len();
            lemma_interpolate_constant(
                integer_part(span.x_left),
                one,
                integer_part(span.x_right),
                j,
            );
            crate::color::lemma_scale_identity(color, one);
        }
    }
}

/// A filled triangle has no shading: every one of its pixels has the color
/// of the triangle itself.
pub proof fn lemma_filled_triangle_color(v0: V3, v1: V3, v2: V3, color: Color, i: int)
    requires
        0 <= i < filled_triangle_dots(v0, v1, v2, color).len(),
    ensures
        filled_triangle_dots(v0, v1, v2, color)[i].color == color,
{
    let (low, mid, high) = sort_by_y(fully_lit(v0), fully_lit(v1), fully_lit(v2));
    lemma_sort_by_y(fully_lit(v0), fully_lit(v1), fully_lit(v2));
    lemma_fully_lit_rows(
        low,
        mid,
        high,
        color,
        interpolate_len(integer_part(low.y), integer_part(high.y)),
        i,
    );
}

/// A line does not depend on which of its ends is given first.
pub proof fn lemma_line_is_symmetric(v0: V3, v1: V3, color: Color)
    ensures
        line_dots(v0, v1, color) == line_dots(v1, v0, color),
{
}

/// Joins the values along the two short sides of a triangle: the values of the
/// lower side without its last one, which the upper side repeats, and then
/// those of the upper side.
fn join_sides(lower: &Vec<Fixed>, upper: &Vec<Fixed>) -> (joined: Vec<Fixed>)
    requires
        lower@.len() >= 1,
    ensures
        joined@ == lower@.drop_last() + upper@,
{
    let mut joined: Vec<Fixed> = Vec::new();
    let kept: usize = lower.len() - 1;
    let mut i: usize = 0;
    while i < kept
        invariant
            i <= kept,
            kept + 1 == lower@.len(),
            joined@ == lower@.take(i as int),
        decreases kept - i,
    {
        joined.push(lower[i]);
        i = i + 1;
    }
    let mut j: usize = 0;
    while j < upper.len()
        invariant
            j <= upper@.len(),
            lower@.len() >= 1,
            joined@ == lower@.drop_last() + upper@.take(j as int),
        decreases upper@.len() - j,
    {
        joined.push(upper[j]);
        j = j + 1;
    }
    joined
}

/// Interpolates one attribute along the long side and along the two short
/// sides of a triangle whose vertices lie in the rows `y0 <= y1 <= y2`.
fn side_values(y0: i32, a0: Fixed, y1: i32, a1: Fixed, y2: i32, a2: Fixed) -> (sides: (
    Vec<Fixed>,
    Vec<Fixed>,
))
    requires
        y0 <= y1 <= y2,
    ensures
        sides.0@.len() == y2 - y0 + 1,
        sides.1@.len() == y2 - y0 + 1,
        forall|k: int|
            0 <= k <= y2 - y0 ==> (#[trigger] sides.0@[k])@ == long_side_at(
                y0 as int,
                a0@,
                y2 as int,
                a2@,
                k,
            ),
        forall|k: int|
            0 <= k <= y2 - y0 ==> (#[trigger] sides.1@[k])@ == short_sides_at(
                y0 as int,
                a0@,
                y1 as int,
                a1@,
                y2 as int,
                a2@,
                k,
            ),
{
    let lower = interpolate(y0, a0, y1, a1);
    let upper = interpolate(y1, a1, y2, a2);
    let long = interpolate(y0, a0, y2, a2);
    let short = join_sides(&lower, &upper);
    (long, short)
}

/// Appends the pixels of one row of a triangle to `dots`.
fn push_span(
    dots: &mut Vec<Pixel>,
    x_left: Fixed,
    h_left: Fixed,
    x_right: Fixed,
    h_right: Fixed,
    y: i32,
    color: Color,
)
    ensures
        final(dots)@ == old(dots)@ + span_dots(
            Span { x_left: x_left@, h_left: h_left@, x_right: x_right@, h_right: h_right@ },
            y as int,
            color,
        ),
{
    let xl = x_left.to_int();
    let xr = x_right.to_int();
    let hs = interpolate(xl, h_left, xr, h_right);
    let ghost span = Span {
        x_left: x_left@,
        h_left: h_left@,
        x_right: x_right@,
        h_right: h_right@,
    };
    let ghost row = span_dots(span, y as int, color);
    let mut j: usize = 0;
    while j < hs.len()
        invariant
            j <= hs@.len(),
            hs@.len() == interpolate_len(xl as int, xr as int),
            hs@.len() == row.len(),
            -16384 <= xl <= 16384,
            -16384 <= xr <= 16384,
            xl == integer_part(span.x_left),
            xr == integer_part(span.x_right),
            h_left@ == span.h_left,
            h_right@ == span.h_right,
            row == span_dots(span, y as int, color),
            forall|i: int|
                0 <= i < hs@.len() ==> (#[trigger] hs@[i])@ == interpolate_at(
                    xl as int,
                    h_left@,
                    xr as int,
                    h_right@,
                    i,
                ),
            dots@ == old(dots)@ + row.take(j as int),
        decreases hs@.len() - j,
    {
        let shaded = color.scale(hs[j]);
        dots.push(Pixel { x: xl + j as i32, y, color: shaded });
        j = j + 1;
    }
}

/// Orders three vertices by ascending `y`.
fn sorted_by_y(v0: Vec3, v1: Vec3, v2: Vec3) -> (p: (Vec3, Vec3, Vec3))
    ensures
        (p.0@, p.1@, p.2@) == sort_by_y(v0@, v1@, v2@),
{
    let mut low = v0;
    let mut mid = v1;
    let mut high = v2;
    if mid.y.lt(low.y) {
        let t = low;
        low = mid;
        mid = t;
    }
    if high.y.lt(low.y) {
        let t = low;
        low = high;
        high = t;
    }
    if high.y.lt(mid.y) {
        let t = mid;
        mid = high;
        high = t;
    }
    (low, mid, high)
}

/// Computes the pixels of the shaded triangle with the vertices `v0`, `v1`,
/// `v2` in drawing order. The third component of each vertex is its shading
/// attribute, by which the base color is scaled.
pub fn shaded_triangle_pixels(v0: Vec3, v1: Vec3, v2: Vec3, color: Color) -> (dots: Vec<Pixel>)
    ensures
        dots@ == triangle_dots(v0@, v1@, v2@, color),
{
    let (low, mid, high) = sorted_by_y(v0, v1, v2);
    let y0 = low.y.to_int();
    let y1 = mid.y.to_int();
    let y2 = high.y.to_int();
    proof {
        lemma_sort_by_y(v0@, v1@, v2@);
        lemma_integer_part_monotone(low.y@, mid.y@);
        lemma_integer_part_monotone(mid.y@, high.y@);
    }
    let (x02, x012) = side_values(y0, low.x, y1, mid.x, y2, high.x);
    let (h02, h012) = side_values(y0, low.z, y1, mid.z, y2, high.z);
    let rows = x02.len();
    let m = rows / 2;
    let long_left = x02[m].lt(x012[m]);
    let mut dots: Vec<Pixel> = Vec::new();
    let mut k: usize = 0;
    while k < rows
        invariant
            k <= rows,
            rows == y2 - y0 + 1,
            -16384 <= y0 <= y2 <= 16384,
            y0 == integer_part(low.y@),
            y1 == integer_part(mid.y@),
            y2 == integer_part(high.y@),
            x02@.len() == rows,
            h02@.len() == rows,
            x012@.len() == rows,
            h012@.len() == rows,
            long_left == long_side_is_left(low@, mid@, high@),
            forall|i: int|
                0 <= i <= y2 - y0 ==> (#[trigger] x02@[i])@ == long_side_at(
                    y0 as int,
                    low.x@,
                    y2 as int,
                    high.x@,
                    i,
                ),
            forall|i: int|
                0 <= i <= y2 - y0 ==> (#[trigger] h02@[i])@ == long_side_at(
                    y0 as int,
                    low.z@,
                    y2 as int,
                    high.z@,
                    i,
                ),
            forall|i: int|
                0 <= i <= y2 - y0 ==> (#[trigger] x012@[i])@ == short_sides_at(
                    y0 as int,
                    low.x@,
                    y1 as int,
                    mid.x@,
                    y2 as int,
                    high.x@,
                    i,
                ),
            forall|i: int|
                0 <= i <= y2 - y0 ==> (#[trigger] h012@[i])@ == short_sides_at(
                    y0 as int,
                    low.z@,
                    y1 as int,
                    mid.z@,
                    y2 as int,
                    high.z@,
                    i,
                ),
            dots@ == triangle_rows(low@, mid@, high@, color, k as nat),
        decreases rows - k,
    {
        let y: i32 = y0 + k as i32;
        if long_left {
            push_span(&mut dots, x02[k], h02[k], x012[k], h012[k], y, color);
        } else {
            push_span(&mut dots, x012[k], h012[k], x02[k], h02[k], y, color);
        }
        k = k + 1;
    }
    dots
}

} // verus!
