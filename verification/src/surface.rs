//! The mathematical model of a drawing surface: a grid of colors in centered
//! coordinates, and what plotting a list of pixels does to it.
use crate::canvas::Viewport;
use crate::color::Color;
use vstd::prelude::*;

verus! {

/// What a drawing operation can fail with.
#[derive(Clone, Copy, Debug, PartialEq, Eq)]
pub enum RenderError {
    /// A pixel was written outside the surface.
    OutOfBounds,
    /// A surface was asked for with a side of zero or of more than
    /// [`MAX_SIDE`](crate::canvas::MAX_SIDE) pixels.
    InvalidSize,
    /// A triangle names a vertex that the vertex list does not have.
    MissingVertex,
}

/// A colored point in centered coordinates: the origin is the middle of the
/// surface and `y` grows upwards.
#[derive(Clone, Copy, Debug, PartialEq, Eq)]
pub struct Pixel {
    pub x: i32,
    pub y: i32,
    pub color: Color,
}

/// The model of a canvas. It holds the points `(x, y)` with
/// `-half_width <= x <= half_width` and `-half_height <= y <= half_height`,
/// stored row by row from the top row down, and the viewport that maps them
/// to camera space.
pub struct Surface {
    pub half_width: int,
    pub half_height: int,
    pub colors: Seq<Color>,
    pub viewport: Viewport,
}

impl Surface {
    /// The number of columns.
    pub open spec fn columns(self) -> int {
        2 * self.half_width + 1
    }

    /// The number of rows.
    pub open spec fn rows(self) -> int {
        2 * self.half_height + 1
    }

    /// Whether the colors fill the grid exactly.
    pub open spec fn well_formed(self) -> bool {
        &&& 0 <= self.half_width
        &&& 0 <= self.half_height
        &&& self.colors.len() == self.columns() * self.rows()
    }

    /// Whether the point lies on the surface.
    pub open spec fn contains(self, x: int, y: int) -> bool {
        &&& -self.half_width <= x <= self.half_width
        &&& -self.half_height <= y <= self.half_height
    }

    /// Where the color of a point is stored: rows run from the top down and
    /// columns from the left.
    pub open spec fn index_of(self, x: int, y: int) -> int {
        (self.half_height - y) * self.columns() + (x + self.half_width)
    }

    /// The color of a point of the surface.
    pub open spec fn color_at(self, x: int, y: int) -> Color {
        self.colors[self.index_of(x, y)]
    }

    /// The surface with one point recolored.
    pub open spec fn put(self, p: Pixel) -> Surface {
        Surface {
            half_width: self.half_width,
            half_height: self.half_height,
            colors: self.colors.update(self.index_of(p.x as int, p.y as int), p.color),
            viewport: self.viewport,
        }
    }

    /// The surface after the first `n` pixels of `dots` were written in order.
    pub open spec fn painted(self, dots: Seq<Pixel>, n: nat) -> Surface
        decreases n,
    {
        if n == 0 {
            self
        } else {
            self.painted(dots, (n - 1) as nat).put(dots[n - 1])
        }
    }

    /// The index of the first pixel from index `from` on that lies outside the
    /// surface, or the length of `dots` when there is none.
    pub open spec fn first_outside(self, dots: Seq<Pixel>, from: nat) -> nat
        decreases dots.len() - from,
    {
        if from >= dots.len() {
            dots.len()
        } else if !self.contains(dots[from as int].x as int, dots[from as int].y as int) {
            from
        } else {
            self.first_outside(dots, from + 1)
        }
    }

    /// Whether every pixel of `dots` lies on the surface.
    pub open spec fn accepts(self, dots: Seq<Pixel>) -> bool {
        forall|i: int|
            0 <= i < dots.len() ==> self.contains((#[trigger] dots[i]).x as int, dots[i].y as int)
    }

    /// The surface after `dots` were written in order, up to the first one that
    /// lies outside: writing stops there.
    pub open spec fn plot(self, dots: Seq<Pixel>) -> Surface {
        self.painted(dots, self.first_outside(dots, 0))
    }

    /// Those of the first `n` pixels of `dots` that lie on the surface, in
    /// their order.
    pub open spec fn visible_among(self, dots: Seq<Pixel>, n: nat) -> Seq<Pixel>
        decreases n,
    {
        if n == 0 {
            Seq::empty()
        } else {
            let before = self.visible_among(dots, (n - 1) as nat);
            if self.contains(dots[n - 1].x as int, dots[n - 1].y as int) {
                before.push(dots[n - 1])
            } else {
                before
            }
        }
    }

    /// The pixels of `dots` that lie on the surface, in their order: `dots`
    /// filtered by [`contains`](Surface::contains).
    pub open spec fn visible(self, dots: Seq<Pixel>) -> Seq<Pixel> {
        self.visible_among(dots, dots.len())
    }

    /// The error that writing `dots` stops with, if any of them lies outside.
    pub open spec fn plot_error(self, dots: Seq<Pixel>) -> Option<RenderError> {
        if self.accepts(dots) {
            None
        } else {
            Some(RenderError::OutOfBounds)
        }
    }

    /// What writing `dots` returns.
    pub open spec fn plot_result(self, dots: Seq<Pixel>) -> Result<(), RenderError> {
        match self.plot_error(dots) {
            None => Ok(()),
            Some(e) => Err(e),
        }
    }
}

/// The index of a point of the surface is an index into its colors.
pub proof fn lemma_index_in_bounds(s: Surface, x: int, y: int)
    requires
        s.well_formed(),
        s.contains(x, y),
    ensures
        0 <= s.index_of(x, y) < s.colors.len(),
{
    let w = s.columns();
    let row = s.half_height - y;
    assert(0 <= row * w && row * w + w <= s.rows() * w) by (nonlinear_arith)
        requires
            0 <= row < s.rows(),
            0 < w,
    ;
    assert(s.rows() * w == w * s.rows()) by (nonlinear_arith);
}

/// Different points of the surface are stored at different indices.
pub proof fn lemma_index_injective(s: Surface, x1: int, y1: int, x2: int, y2: int)
    requires
        s.well_formed(),
        s.contains(x1, y1),
        s.contains(x2, y2),
        s.index_of(x1, y1) == s.index_of(x2, y2),
    ensures
        x1 == x2,
        y1 == y2,
{
    let w = s.columns();
    let r1 = s.half_height - y1;
    let r2 = s.half_height - y2;
    if r1 < r2 {
        assert(r1 * w + w <= r2 * w) by (nonlinear_arith)
            requires
                r1 < r2,
                0 < w,
        ;
    } else if r2 < r1 {
        assert(r2 * w + w <= r1 * w) by (nonlinear_arith)
            requires
                r2 < r1,
                0 < w,
        ;
    }
}

/// Writing pixels keeps the dimensions and the well-formedness of a surface.
pub proof fn lemma_painted_shape(s: Surface, dots: Seq<Pixel>, n: nat)
    requires
        s.well_formed(),
        n <= dots.len(),
        forall|i: int| 0 <= i < n ==> s.contains((#[trigger] dots[i]).x as int, dots[i].y as int),
    ensures
        s.painted(dots, n).half_width == s.half_width,
        s.painted(dots, n).half_height == s.half_height,
        s.painted(dots, n).colors.len() == s.colors.len(),
        s.painted(dots, n).well_formed(),
    decreases n,
{
    if n > 0 {
        lemma_painted_shape(s, dots, (n - 1) as nat);
        let before = s.painted(dots, (n - 1) as nat);
        let p = dots[n - 1];
        lemma_index_in_bounds(before, p.x as int, p.y as int);
    }
}

/// While every pixel from `from` up to `to` lies on the surface, the search
/// for the first one outside may as well start at `to`.
pub proof fn lemma_first_outside_skips(s: Surface, dots: Seq<Pixel>, from: nat, to: nat)
    requires
        from <= to <= dots.len(),
        forall|i: int|
            from <= i < to ==> s.contains((#[trigger] dots[i]).x as int, dots[i].y as int),
    ensures
        s.first_outside(dots, from) == s.first_outside(dots, to),
    decreases to - from,
{
    if from < to {
        lemma_first_outside_skips(s, dots, from + 1, to);
    }
}

/// A surface that accepts every pixel of a list is painted with all of them.
pub proof fn lemma_plot_accepted(s: Surface, dots: Seq<Pixel>)
    requires
        s.accepts(dots),
    ensures
        s.first_outside(dots, 0) == dots.len(),
        s.plot(dots) == s.painted(dots, dots.len()),
{
    lemma_first_outside_skips(s, dots, 0, dots.len());
}

/// The first pixel outside the surface is outside, and all before it are on it.
pub proof fn lemma_first_outside_is_first(s: Surface, dots: Seq<Pixel>, from: nat)
    requires
        from <= dots.len(),
    ensures
        from <= s.first_outside(dots, from) <= dots.len(),
        forall|i: int|
            from <= i < s.first_outside(dots, from) ==> s.contains(
                (#[trigger] dots[i]).x as int,
                dots[i].y as int,
            ),
        s.first_outside(dots, from) < dots.len() ==> !s.contains(
            dots[s.first_outside(dots, from) as int].x as int,
            dots[s.first_outside(dots, from) as int].y as int,
        ),
    decreases dots.len() - from,
{
    if from < dots.len() && s.contains(dots[from as int].x as int, dots[from as int].y as int) {
        lemma_first_outside_is_first(s, dots, from + 1);
    }
}

/// Writing pixels never changes the dimensions of a surface.
pub proof fn lemma_painted_dimensions(s: Surface, dots: Seq<Pixel>, n: nat)
    ensures
        s.painted(dots, n).half_width == s.half_width,
        s.painted(dots, n).half_height == s.half_height,
    decreases n,
{
    if n > 0 {
        lemma_painted_dimensions(s, dots, (n - 1) as nat);
    }
}

/// What the first `n` pixels paint depends on those pixels alone.
pub proof fn lemma_painted_prefix(s: Surface, d1: Seq<Pixel>, d2: Seq<Pixel>, n: nat)
    requires
        forall|i: int| 0 <= i < n ==> d1[i] == d2[i],
    ensures
        s.painted(d1, n) == s.painted(d2, n),
    decreases n,
{
    if n > 0 {
        lemma_painted_prefix(s, d1, d2, (n - 1) as nat);
    }
}

/// Painting all of `a` and then the first `n` pixels of `b` is painting the
/// first pixels of `a` followed by `b`.
pub proof fn lemma_painted_concat(s: Surface, a: Seq<Pixel>, b: Seq<Pixel>, n: nat)
    requires
        n <= b.len(),
    ensures
        s.painted(a + b, a.len() + n) == s.painted(a, a.len()).painted(b, n),
    decreases n,
{
    if n == 0 {
        lemma_painted_prefix(s, a + b, a, a.len());
    } else {
        lemma_painted_concat(s, a, b, (n - 1) as nat);
    }
}

proof fn lemma_first_outside_shift(s: Surface, t: Surface, a: Seq<Pixel>, b: Seq<Pixel>, j: nat)
    requires
        j <= b.len(),
        s.half_width == t.half_width,
        s.half_height == t.half_height,
    ensures
        s.first_outside(a + b, a.len() + j) == a.len() + t.first_outside(b, j),
    decreases b.len() - j,
{
    if j < b.len() {
        lemma_first_outside_shift(s, t, a, b, j + 1);
    }
}

/// Plotting two lists one after the other is plotting their concatenation:
/// when the first list is accepted the second is plotted on its result, and
/// when it is not, nothing of the second list is written.
pub proof fn lemma_plot_concat(s: Surface, a: Seq<Pixel>, b: Seq<Pixel>)
    ensures
        s.plot(a + b) == if s.accepts(a) {
            s.plot(a).plot(b)
        } else {
            s.plot(a)
        },
        s.accepts(a + b) <==> s.accepts(a) && s.accepts(b),
        s.plot(a).half_width == s.half_width,
        s.plot(a).half_height == s.half_height,
        s.plot(a).accepts(b) <==> s.accepts(b),
{
    let ab = a + b;
    lemma_painted_dimensions(s, a, s.first_outside(a, 0));
    let t = s.plot(a);
    assert(s.accepts(ab) <==> s.accepts(a) && s.accepts(b)) by {
        if s.accepts(ab) {
            assert forall|i: int| 0 <= i < a.len() implies s.contains(
                (#[trigger] a[i]).x as int,
                a[i].y as int,
            ) by {
                assert(ab[i] == a[i]);
            }
            assert forall|i: int| 0 <= i < b.len() implies s.contains(
                (#[trigger] b[i]).x as int,
                b[i].y as int,
            ) by {
                assert(ab[a.len() + i] == b[i]);
            }
        }
        if s.accepts(a) && s.accepts(b) {
            assert forall|i: int| 0 <= i < ab.len() implies s.contains(
                (#[trigger] ab[i]).x as int,
                ab[i].y as int,
            ) by {
                if i < a.len() {
                    assert(ab[i] == a[i]);
                } else {
                    assert(ab[i] == b[i - a.len()]);
                }
            }
        }
    }
    if s.accepts(a) {
        lemma_plot_accepted(s, a);
        assert forall|i: int| 0 <= i < a.len() implies s.contains(
            (#[trigger] ab[i]).x as int,
            ab[i].y as int,
        ) by {
            assert(ab[i] == a[i]);
        }
        lemma_first_outside_skips(s, ab, 0, a.len());
        lemma_first_outside_shift(s, t, a, b, 0);
        lemma_first_outside_is_first(t, b, 0);
        lemma_painted_concat(s, a, b, t.first_outside(b, 0));
    } else {
        let f = s.first_outside(a, 0);
        let g = s.first_outside(ab, 0);
        lemma_first_outside_is_first(s, a, 0);
        lemma_first_outside_is_first(s, ab, 0);
        if f == a.len() {
            assert(s.accepts(a));
        }
        assert(ab[f as int] == a[f as int]);
        if g < f {
            assert(ab[g as int] == a[g as int]);
        }
        assert(g == f);
        assert forall|i: int| 0 <= i < f implies ab[i] == a[i] by {}
        lemma_painted_prefix(s, ab, a, f);
    }
}

/// The visible pixels of a list are those of the list that lie on the
/// surface: each of them does, each comes from the list, and a list that the
/// surface accepts is visible as a whole.
pub proof fn lemma_visible(s: Surface, dots: Seq<Pixel>, n: nat)
    requires
        n <= dots.len(),
    ensures
        s.accepts(s.visible_among(dots, n)),
        s.visible_among(dots, n).len() <= n,
        forall|i: int|
            0 <= i < s.visible_among(dots, n).len() ==> exists|j: int|
                0 <= j < n && dots[j] == #[trigger] s.visible_among(dots, n)[i],
        s.accepts(dots) ==> s.visible_among(dots, n) == dots.take(n as int),
    decreases n,
{
    if n > 0 {
        lemma_visible(s, dots, (n - 1) as nat);
        let before = s.visible_among(dots, (n - 1) as nat);
        let now = s.visible_among(dots, n);
        assert forall|i: int| 0 <= i < now.len() implies exists|j: int|
            0 <= j < n && dots[j] == #[trigger] now[i] by {
            if i < before.len() {
                let j = choose|j: int| 0 <= j < n - 1 && dots[j] == before[i];
                assert(dots[j] == now[i]);
            } else {
                assert(dots[n - 1] == now[i]);
            }
        }
        if s.accepts(dots) {
            assert(now =~= dots.take(n as int));
        }
    } else {
        assert(s.visible_among(dots, 0) =~= dots.take(0));
    }
}

} // verus!
