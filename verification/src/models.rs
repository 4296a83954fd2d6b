//! Meshes of triangles, the transformations that place them in the world, and
//! how a mesh is drawn on a canvas and clipped against planes.
use crate::canvas::{Canvas, Viewport};
use crate::clip::{clip_against, clip_facets_against, patches_of, Facet, Patch};
use crate::color::Color;
use crate::fixed::{Fixed, ONE_RAW};
use crate::math::{plane_signed_distance, Plane};
use crate::matrix::{
    m4_from_scale_rotation_translation, m4_transform_point, Mat4, Quat, M4, Q4,
};
use crate::raster::triangle_dots;
use crate::shapes::{Material, Triangle};
use crate::surface::{lemma_visible, Pixel, RenderError, Surface};
use crate::arith::div_tz;
use crate::vector::{v3_fine, v3_in_range, FinePoint, Vec3, V3};
use vstd::prelude::*;

verus! {

/// Where an instance of a model stands: it is scaled by one factor in all
/// directions, then turned, then moved.
#[derive(Clone, Copy, Debug)]
pub struct Transform {
    pub translation: Vec3,
    pub rotation: Quat,
    pub scale: Fixed,
}

/// The model of a placement: the raw translation, the rotation and the raw
/// factor of the scaling.
pub struct Placement {
    pub translation: V3,
    pub rotation: Q4,
    pub scale: int,
}

impl Placement {
    /// The matrix of the placement: scaling, then rotation, then translation.
    pub open spec fn matrix(self) -> M4 {
        m4_from_scale_rotation_translation(
            V3 { x: self.scale, y: self.scale, z: self.scale },
            self.rotation,
            self.translation,
        )
    }
}

/// The placement that changes nothing.
pub open spec fn identity_placement() -> Placement {
    Placement {
        translation: V3 { x: 0, y: 0, z: 0 },
        rotation: Q4 { x: 0, y: 0, z: 0, w: ONE_RAW as int },
        scale: ONE_RAW as int,
    }
}

impl View for Transform {
    type V = Placement;

    open spec fn view(&self) -> Placement {
        Placement {
            translation: self.translation@,
            rotation: self.rotation@,
            scale: self.scale@,
        }
    }
}

/// The matrix of the transformation that changes nothing.
pub open spec fn m4_identity() -> M4 {
    let p = ONE_RAW as int;
    M4 {
        x_axis: V3 { x: p, y: 0, z: 0 },
        y_axis: V3 { x: 0, y: p, z: 0 },
        z_axis: V3 { x: 0, y: 0, z: p },
        w_axis: V3 { x: 0, y: 0, z: 0 },
    }
}

impl Default for Transform {
    /// The transformation that changes nothing.
    fn default() -> (t: Transform)
        ensures
            t.translation@ == (V3 { x: 0, y: 0, z: 0 }),
            t.rotation@ == (Q4 { x: 0, y: 0, z: 0, w: ONE_RAW as int }),
            t@ == identity_placement(),
            t.matrix() == m4_identity(),
    {
        proof {
            lemma_identity_matrix();
        }
        Transform { translation: Vec3::zero(), rotation: Quat::identity(), scale: Fixed::one() }
    }
}

/// The transformation that scales by one, does not turn and does not move
/// has the identity matrix.
pub proof fn lemma_identity_matrix()
    ensures
        identity_placement().matrix() == m4_identity(),
{
    let one = ONE_RAW as int;
    let q = identity_placement().rotation;
    assert(q.w * (2 * q.x) == 0) by (nonlinear_arith)
        requires
            q.x == 0,
    ;
    assert(q.w * (2 * q.y) == 0) by (nonlinear_arith)
        requires
            q.y == 0,
    ;
    assert(q.w * (2 * q.z) == 0) by (nonlinear_arith)
        requires
            q.z == 0,
    ;
    assert((one * one) / one == one) by (nonlinear_arith)
        requires
            one == 65536,
    ;
}

impl Transform {
    /// The matrix of the transformation.
    pub open spec fn matrix(self) -> M4 {
        self@.matrix()
    }

    /// The transformation that scales by `scale`, turns by `rotation` and
    /// moves by `translation`.
    pub fn new(translation: Vec3, rotation: Quat, scale: Fixed) -> (t: Transform)
        ensures
            t == (Transform { translation, rotation, scale }),
    {
        Transform { translation, rotation, scale }
    }

    /// The transformation that only moves by `translation`.
    pub fn from_translation(translation: Vec3) -> (t: Transform)
        ensures
            t.translation == translation,
            t.rotation@ == (Q4 { x: 0, y: 0, z: 0, w: ONE_RAW as int }),
            t.scale@ == ONE_RAW,
    {
        Transform { translation, rotation: Quat::identity(), scale: Fixed::one() }
    }

    /// The factor of the scaling.
    pub fn get_scale(&self) -> (s: Fixed)
        ensures
            s == self.scale,
    {
        self.scale
    }

    /// The rotation.
    pub fn get_rotation(&self) -> (r: Quat)
        ensures
            r == self.rotation,
    {
        self.rotation
    }

    /// The translation.
    pub fn get_translation(&self) -> (t: Vec3)
        ensures
            t == self.translation,
    {
        self.translation
    }

    /// The matrix of the transformation.
    pub fn get_matrix(&self) -> (m: Mat4)
        ensures
            m@ == self.matrix(),
    {
        Mat4::from_scale_rotation_translation(
            Vec3 { x: self.scale, y: self.scale, z: self.scale },
            self.rotation,
            self.translation,
        )
    }
}

/// The models of a sequence of vectors.
pub open spec fn views(vectors: Seq<Vec3>) -> Seq<V3> {
    Seq::new(vectors.len(), |i: int| vectors[i]@)
}

/// The model of a triangle of a mesh: the indices of its three corners in the
/// vertex list, and its material.
pub struct Face {
    pub a: usize,
    pub b: usize,
    pub c: usize,
    pub material: Material,
}

impl View for Triangle {
    type V = Face;

    open spec fn view(&self) -> Face {
        Face {
            a: self.vertices@[0],
            b: self.vertices@[1],
            c: self.vertices@[2],
            material: self.material,
        }
    }
}

/// The models of a sequence of triangles.
pub open spec fn faces_of(triangles: Seq<Triangle>) -> Seq<Face> {
    Seq::new(triangles.len(), |i: int| triangles[i]@)
}

/// Whether the three corners of a face are among the first `n` vertices.
pub open spec fn face_is_indexed(f: Face, n: nat) -> bool {
    f.a < n && f.b < n && f.c < n
}

/// The pixels of a face of a mesh whose vertices were projected to the points
/// `projected` of the canvas: those of the shaded triangle in the color of its
/// material, with the third components of the points as shading attributes.
pub open spec fn face_dots(f: Face, projected: Seq<V3>) -> Seq<Pixel> {
    triangle_dots(
        projected[f.a as int],
        projected[f.b as int],
        projected[f.c as int],
        f.material.color,
    )
}

/// What a drawing operation leaves behind: the surface, and the error that
/// stopped it, if any.
pub struct Outcome {
    pub surface: Surface,
    pub error: Option<RenderError>,
}

impl Outcome {
    /// The result that the operation returns.
    pub open spec fn result(self) -> Result<(), RenderError> {
        match self.error {
            None => Ok(()),
            Some(e) => Err(e),
        }
    }
}

/// The pixels of `dots` that are written: all of them, or with `skip_outside`
/// those that lie on the surface.
pub open spec fn shown(s: Surface, dots: Seq<Pixel>, skip_outside: bool) -> Seq<Pixel> {
    if skip_outside {
        s.visible(dots)
    } else {
        dots
    }
}

/// What drawing one face of a mesh does. A face whose corners are not all in
/// the list is not drawn and gives `MissingVertex`. A pixel outside the
/// surface stops the drawing and gives `OutOfBounds`, unless `skip_outside`
/// is set: then it is passed over, and the rest of the face is drawn.
pub open spec fn draw_face(s: Surface, f: Face, projected: Seq<V3>, skip_outside: bool) -> Outcome {
    if !face_is_indexed(f, projected.len()) {
        Outcome { surface: s, error: Some(RenderError::MissingVertex) }
    } else {
        let dots = shown(s, face_dots(f, projected), skip_outside);
        Outcome { surface: s.plot(dots), error: s.plot_error(dots) }
    }
}

/// What drawing the first `n` faces of a mesh in order does: the first error
/// stops the drawing, and the faces after it are not drawn.
pub open spec fn draw_mesh(s: Surface, faces: Seq<Face>, projected: Seq<V3>, n: nat, skip_outside: bool) -> Outcome
    decreases n,
{
    if n == 0 {
        Outcome { surface: s, error: None }
    } else {
        let before = draw_mesh(s, faces, projected, (n - 1) as nat, skip_outside);
        if before.error is Some {
            before
        } else {
            draw_face(before.surface, faces[n - 1], projected, skip_outside)
        }
    }
}

/// The points of the canvas that the vertices of camera space project to.
pub open spec fn project_each(vertices: Seq<V3>, viewport: Viewport) -> Seq<V3> {
    Seq::new(vertices.len(), |i: int| viewport.project(v3_fine(vertices[i])))
}

/// The images of the vertices under the transformation `m`.
pub open spec fn transform_each(vertices: Seq<V3>, m: M4) -> Seq<V3> {
    Seq::new(vertices.len(), |i: int| m4_transform_point(m, vertices[i]))
}

/// What drawing a mesh does whose vertices the transformation `m` takes to
/// camera space: the vertices are transformed and projected, and the faces
/// are drawn in order.
pub open spec fn draw_model(
    s: Surface,
    vertices: Seq<V3>,
    faces: Seq<Face>,
    viewport: Viewport,
    m: M4,
    skip_outside: bool,
) -> Outcome {
    draw_mesh(s, faces, project_each(transform_each(vertices, m), viewport), faces.len(), skip_outside)
}

impl Triangle {
    /// Draws the triangle as a shaded triangle in the color of its material.
    /// `projected` holds the points of the canvas that the vertices of the
    /// model were projected to.
    pub fn render(&self, canvas: &mut Canvas, projected: &Vec<Vec3>) -> (r: Result<(), RenderError>)
        ensures
            final(canvas)@ == draw_face(old(canvas)@, self@, views(projected@), false).surface,
            r == draw_face(old(canvas)@, self@, views(projected@), false).result(),
            final(canvas).viewport() == old(canvas).viewport(),
    {
        self.render_with(canvas, projected, false)
    }

    /// Draws the part of the triangle that is on the canvas and passes over
    /// the rest.
    pub fn render_visible(&self, canvas: &mut Canvas, projected: &Vec<Vec3>) -> (r: Result<(), RenderError>)
        ensures
            final(canvas)@ == draw_face(old(canvas)@, self@, views(projected@), true).surface,
            r == draw_face(old(canvas)@, self@, views(projected@), true).result(),
            final(canvas).viewport() == old(canvas).viewport(),
    {
        self.render_with(canvas, projected, true)
    }

    /// Draws the triangle as a shaded triangle in the color of its material.
    /// `projected` holds the points of the canvas that the vertices of the
    /// model were projected to.
    /// With `skip_outside`, a pixel outside the canvas is passed over where it
    /// would otherwise stop the drawing.
    pub(crate) fn render_with(
        &self,
        canvas: &mut Canvas,
        projected: &Vec<Vec3>,
        skip_outside: bool,
    ) -> (r: Result<(), RenderError>)
        ensures
            final(canvas)@ == draw_face(old(canvas)@, self@, views(projected@), skip_outside).surface,
            r == draw_face(old(canvas)@, self@, views(projected@), skip_outside).result(),
            final(canvas).viewport() == old(canvas).viewport(),
    {
        let a = self.vertices[0];
        let b = self.vertices[1];
        let c = self.vertices[2];
        let n = projected.len();
        if a >= n || b >= n || c >= n {
            return Err(RenderError::MissingVertex);
        }
        if skip_outside {
            proof {
                let dots = face_dots(self@, views(projected@));
                lemma_visible(canvas@, dots, dots.len());
            }
            canvas.draw_shaded_triangle_visible(
                projected[a],
                projected[b],
                projected[c],
                self.material.color,
            );
            Ok(())
        } else {
            canvas.draw_shaded_triangle(
                projected[a],
                projected[b],
                projected[c],
                self.material.color,
            )
        }
    }
}

/// Draws the triangles of a mesh in order on the canvas and stops at the first
/// error. `projected` holds the points of the canvas that the vertices were
/// projected to.
pub fn render_mesh(canvas: &mut Canvas, projected: &Vec<Vec3>, triangles: &Vec<Triangle>) -> (r:
    Result<(), RenderError>)
    ensures
        final(canvas)@ == draw_mesh(
            old(canvas)@,
            faces_of(triangles@),
            views(projected@),
            triangles@.len(),
            false,
        ).surface,
        r == draw_mesh(
            old(canvas)@,
            faces_of(triangles@),
            views(projected@),
            triangles@.len(),
            false,
        ).result(),
        final(canvas).viewport() == old(canvas).viewport(),
{
    render_mesh_with(canvas, projected, triangles, false)
}

/// Draws the triangles of a mesh in order, of each the part that is on the
/// canvas. Only a triangle that names a missing vertex stops the drawing.
pub fn render_mesh_visible(canvas: &mut Canvas, projected: &Vec<Vec3>, triangles: &Vec<Triangle>) -> (r:
    Result<(), RenderError>)
    ensures
        final(canvas)@ == draw_mesh(
            old(canvas)@,
            faces_of(triangles@),
            views(projected@),
            triangles@.len(),
            true,
        ).surface,
        r == draw_mesh(
            old(canvas)@,
            faces_of(triangles@),
            views(projected@),
            triangles@.len(),
            true,
        ).result(),
        final(canvas).viewport() == old(canvas).viewport(),
{
    render_mesh_with(canvas, projected, triangles, true)
}

/// Draws the triangles of a mesh in order on the canvas and stops at the first
/// error. `projected` holds the points of the canvas that the vertices were
/// projected to.
/// With `skip_outside`, a pixel outside the canvas is passed over where it
/// would otherwise stop the drawing.
pub(crate) fn render_mesh_with(
    canvas: &mut Canvas,
    projected: &Vec<Vec3>,
    triangles: &Vec<Triangle>,
    skip_outside: bool,
) -> (r: Result<(), RenderError>)
    ensures
        final(canvas)@ == draw_mesh(
            old(canvas)@,
            faces_of(triangles@),
            views(projected@),
            triangles@.len(),
            skip_outside,
        ).surface,
        r == draw_mesh(
            old(canvas)@,
            faces_of(triangles@),
            views(projected@),
            triangles@.len(),
            skip_outside,
        ).result(),
        final(canvas).viewport() == old(canvas).viewport(),
{
    let mut i: usize = 0;
    while i < triangles.len()
        invariant
            i <= triangles@.len(),
            canvas.viewport() == old(canvas).viewport(),
            draw_mesh(old(canvas)@, faces_of(triangles@), views(projected@), i as nat, skip_outside) == (Outcome {
                surface: canvas@,
                error: None,
            }),
        decreases triangles@.len() - i,
    {
        match triangles[i].render_with(canvas, projected, skip_outside) {
            Ok(()) => {},
            Err(e) => {
                proof {
                    lemma_draw_mesh_stops(
                        old(canvas)@,
                        faces_of(triangles@),
                        views(projected@),
                        (i + 1) as nat,
                        triangles@.len(),
                        skip_outside,
                    );
                }
                return Err(e);
            },
        }
        i = i + 1;
    }
    Ok(())
}

/// Drawing that passes over the points outside the surface is never stopped
/// by one: its only error is a missing vertex.
pub proof fn lemma_visible_drawing_stays_inside(
    s: Surface,
    faces: Seq<Face>,
    projected: Seq<V3>,
    n: nat,
)
    requires
        n <= faces.len(),
    ensures
        draw_mesh(s, faces, projected, n, true).error != Some(RenderError::OutOfBounds),
        (forall|i: int| 0 <= i < n ==> face_is_indexed(#[trigger] faces[i], projected.len()))
            ==> draw_mesh(s, faces, projected, n, true).error is None,
    decreases n,
{
    if n > 0 {
        lemma_visible_drawing_stays_inside(s, faces, projected, (n - 1) as nat);
        let before = draw_mesh(s, faces, projected, (n - 1) as nat, true);
        let dots = face_dots(faces[n - 1], projected);
        lemma_visible(before.surface, dots, dots.len());
    }
}

/// Once drawing has stopped with an error, the faces that follow change
/// nothing.
pub proof fn lemma_draw_mesh_stops(s: Surface, faces: Seq<Face>, projected: Seq<V3>, k: nat, n: nat, skip_outside: bool)
    requires
        k <= n,
        draw_mesh(s, faces, projected, k, skip_outside).error is Some,
    ensures
        draw_mesh(s, faces, projected, n, skip_outside) == draw_mesh(s, faces, projected, k, skip_outside),
    decreases n,
{
    if k < n {
        lemma_draw_mesh_stops(s, faces, projected, k, (n - 1) as nat, skip_outside);
    }
}

/// The corners of the cube of side two around the origin.
pub open spec fn cube_vertices() -> Seq<V3> {
    let p = ONE_RAW as int;
    seq![
        V3 { x: p, y: p, z: p },
        V3 { x: -p, y: p, z: p },
        V3 { x: -p, y: -p, z: p },
        V3 { x: p, y: -p, z: p },
        V3 { x: p, y: p, z: -p },
        V3 { x: -p, y: p, z: -p },
        V3 { x: -p, y: -p, z: -p },
        V3 { x: p, y: -p, z: -p },
    ]
}

/// A material of the given color that neither shines nor reflects.
pub open spec fn matte(r: u8, g: u8, b: u8) -> Material {
    Material { color: Color { r, g, b }, shininess: None, reflectiveness: None }
}

/// The twelve triangles of the cube, two to a side, each side in a color of
/// its own.
pub open spec fn cube_faces() -> Seq<Face> {
    let red = matte(255, 0, 0);
    let green = matte(0, 255, 0);
    let blue = matte(0, 0, 255);
    let yellow = matte(255, 255, 0);
    let magenta = matte(255, 0, 255);
    let cyan = matte(0, 255, 255);
    seq![
        Face { a: 0, b: 1, c: 2, material: red },
        Face { a: 0, b: 2, c: 3, material: red },
        Face { a: 4, b: 0, c: 3, material: green },
        Face { a: 4, b: 3, c: 7, material: green },
        Face { a: 5, b: 4, c: 7, material: blue },
        Face { a: 5, b: 7, c: 6, material: blue },
        Face { a: 1, b: 5, c: 6, material: yellow },
        Face { a: 1, b: 6, c: 2, material: yellow },
        Face { a: 4, b: 5, c: 1, material: magenta },
        Face { a: 4, b: 1, c: 0, material: magenta },
        Face { a: 2, b: 6, c: 7, material: cyan },
        Face { a: 2, b: 7, c: 3, material: cyan },
    ]
}

/// The cube of side two around the origin.
#[derive(Clone, Copy, Debug, Default)]
pub struct Cube;

impl Cube {
    fn get_vertices(&self) -> (v: Vec<Vec3>)
        ensures
            views(v@) == cube_vertices(),
    {
        let mut v: Vec<Vec3> = Vec::new();
        v.push(Vec3::from_ints(1, 1, 1));
        v.push(Vec3::from_ints(-1, 1, 1));
        v.push(Vec3::from_ints(-1, -1, 1));
        v.push(Vec3::from_ints(1, -1, 1));
        v.push(Vec3::from_ints(1, 1, -1));
        v.push(Vec3::from_ints(-1, 1, -1));
        v.push(Vec3::from_ints(-1, -1, -1));
        v.push(Vec3::from_ints(1, -1, -1));
        v
    }

    fn get_triangles(&self) -> (t: Vec<Triangle>)
        ensures
            faces_of(t@) == cube_faces(),
    {
        let mut t: Vec<Triangle> = Vec::new();
        t.push(Triangle::new(0, 1, 2, Material::new(Color::red(), None, None)));
        t.push(Triangle::new(0, 2, 3, Material::new(Color::red(), None, None)));
        t.push(Triangle::new(4, 0, 3, Material::new(Color::green(), None, None)));
        t.push(Triangle::new(4, 3, 7, Material::new(Color::green(), None, None)));
        t.push(Triangle::new(5, 4, 7, Material::new(Color::blue(), None, None)));
        t.push(Triangle::new(5, 7, 6, Material::new(Color::blue(), None, None)));
        t.push(Triangle::new(1, 5, 6, Material::new(Color::yellow(), None, None)));
        t.push(Triangle::new(1, 6, 2, Material::new(Color::yellow(), None, None)));
        t.push(Triangle::new(4, 5, 1, Material::new(Color::magenta(), None, None)));
        t.push(Triangle::new(4, 1, 0, Material::new(Color::magenta(), None, None)));
        t.push(Triangle::new(2, 6, 7, Material::new(Color::cyan(), None, None)));
        t.push(Triangle::new(2, 7, 3, Material::new(Color::cyan(), None, None)));
        t
    }
}

/// A mesh given by its own vertices and triangles.
#[derive(Debug)]
pub struct Mesh {
    /// The vertices in the space of the model.
    pub vertices: Vec<Vec3>,
    /// The triangles, which name their corners by index.
    pub triangles: Vec<Triangle>,
}

/// A mesh of triangles.
#[derive(Debug)]
pub enum Model {
    Cube(Cube),
    Mesh(Mesh),
}

impl Clone for Mesh {
    fn clone(&self) -> (copy: Mesh)
        ensures
            copy.vertices@ == self.vertices@,
            copy.triangles@ == self.triangles@,
    {
        Mesh {
            vertices: copy_vertices(&self.vertices),
            triangles: copy_triangles(&self.triangles),
        }
    }
}

impl Clone for Model {
    fn clone(&self) -> (copy: Model)
        ensures
            copy.vertices() == self.vertices(),
            copy.faces() == self.faces(),
            copy is Cube == self is Cube,
    {
        match self {
            Model::Cube(_) => Model::Cube(Cube),
            Model::Mesh(mesh) => Model::Mesh(mesh.clone()),
        }
    }
}

fn copy_vertices(vertices: &Vec<Vec3>) -> (copy: Vec<Vec3>)
    ensures
        copy@ == vertices@,
{
    let mut copy: Vec<Vec3> = Vec::new();
    let mut i: usize = 0;
    while i < vertices.len()
        invariant
            i <= vertices@.len(),
            copy@ == vertices@.take(i as int),
        decreases vertices@.len() - i,
    {
        copy.push(vertices[i]);
        i = i + 1;
    }
    copy
}

fn copy_triangles(triangles: &Vec<Triangle>) -> (copy: Vec<Triangle>)
    ensures
        copy@ == triangles@,
{
    let mut copy: Vec<Triangle> = Vec::new();
    let mut i: usize = 0;
    while i < triangles.len()
        invariant
            i <= triangles@.len(),
            copy@ == triangles@.take(i as int),
        decreases triangles@.len() - i,
    {
        copy.push(triangles[i]);
        i = i + 1;
    }
    copy
}

impl Model {
    /// The vertices of the model in its own space.
    pub open spec fn vertices(self) -> Seq<V3> {
        match self {
            Model::Cube(_) => cube_vertices(),
            Model::Mesh(mesh) => views(mesh.vertices@),
        }
    }

    /// The triangles of the model.
    pub open spec fn faces(self) -> Seq<Face> {
        match self {
            Model::Cube(_) => cube_faces(),
            Model::Mesh(mesh) => faces_of(mesh.triangles@),
        }
    }

    /// The vertices of the model in its own space.
    pub fn get_vertices(&self) -> (v: Vec<Vec3>)
        ensures
            views(v@) == self.vertices(),
    {
        match self {
            Model::Cube(cube) => cube.get_vertices(),
            Model::Mesh(mesh) => copy_vertices(&mesh.vertices),
        }
    }

    /// The triangles of the model.
    pub fn get_triangles(&self) -> (t: Vec<Triangle>)
        ensures
            faces_of(t@) == self.faces(),
    {
        match self {
            Model::Cube(cube) => cube.get_triangles(),
            Model::Mesh(mesh) => copy_triangles(&mesh.triangles),
        }
    }

    /// Draws the model on the canvas. `transform` takes the vertices of the
    /// model to camera space, from where they are projected to the canvas; the
    /// triangles are then drawn in order, up to the first error.
    pub fn render(&self, canvas: &mut Canvas, transform: &Mat4) -> (r: Result<(), RenderError>)
        ensures
            final(canvas)@ == draw_model(
                old(canvas)@,
                self.vertices(),
                self.faces(),
                old(canvas).viewport(),
                transform@,
                false,
            ).surface,
            r == draw_model(
                old(canvas)@,
                self.vertices(),
                self.faces(),
                old(canvas).viewport(),
                transform@,
                false,
            ).result(),
            final(canvas).viewport() == old(canvas).viewport(),
    {
        self.render_with(canvas, transform, false)
    }

    /// Draws the part of the model that is on the canvas.
    pub fn render_visible(&self, canvas: &mut Canvas, transform: &Mat4) -> (r: Result<(), RenderError>)
        ensures
            final(canvas)@ == draw_model(
                old(canvas)@,
                self.vertices(),
                self.faces(),
                old(canvas).viewport(),
                transform@,
                true,
            ).surface,
            r == draw_model(
                old(canvas)@,
                self.vertices(),
                self.faces(),
                old(canvas).viewport(),
                transform@,
                true,
            ).result(),
            final(canvas).viewport() == old(canvas).viewport(),
    {
        self.render_with(canvas, transform, true)
    }

    /// Draws the model on the canvas. `transform` takes the vertices of the
    /// model to camera space, from where they are projected to the canvas; the
    /// triangles are then drawn in order, up to the first error.
    /// With `skip_outside`, a pixel outside the canvas is passed over where it
    /// would otherwise stop the drawing.
    pub(crate) fn render_with(
        &self,
        canvas: &mut Canvas,
        transform: &Mat4,
        skip_outside: bool,
    ) -> (r: Result<(), RenderError>)
        ensures
            final(canvas)@ == draw_model(
                old(canvas)@,
                self.vertices(),
                self.faces(),
                old(canvas).viewport(),
                transform@,
                skip_outside,
            ).surface,
            r == draw_model(
                old(canvas)@,
                self.vertices(),
                self.faces(),
                old(canvas).viewport(),
                transform@,
                skip_outside,
            ).result(),
            final(canvas).viewport() == old(canvas).viewport(),
    {
        let vertices = self.get_vertices();
        let projected = project_vertices(canvas, &vertices, transform);
        let triangles = self.get_triangles();
        assert(views(projected@) =~= project_each(
            transform_each(self.vertices(), transform@),
            canvas.viewport(),
        ));
        render_mesh_with(canvas, &projected, &triangles, skip_outside)
    }
}

/// Takes each vertex to camera space by `transform` and projects it to the
/// canvas.
fn project_vertices(canvas: &Canvas, vertices: &Vec<Vec3>, transform: &Mat4) -> (projected: Vec<
    Vec3,
>)
    ensures
        projected@.len() == vertices@.len(),
        forall|i: int|
            0 <= i < vertices@.len() ==> (#[trigger] projected@[i])@ == canvas.viewport().project(
                v3_fine(m4_transform_point(transform@, vertices@[i]@)),
            ),
{
    let mut projected: Vec<Vec3> = Vec::new();
    let mut i: usize = 0;
    while i < vertices.len()
        invariant
            i <= vertices@.len(),
            projected@.len() == i,
            forall|j: int|
                0 <= j < i ==> (#[trigger] projected@[j])@ == canvas.viewport().project(
                    v3_fine(m4_transform_point(transform@, vertices@[j]@)),
                ),
        decreases vertices@.len() - i,
    {
        let v = transform.transform_point(vertices[i]);
        projected.push(canvas.project(&FinePoint::from_vec3(v)));
        i = i + 1;
    }
    projected
}

/// The model of a placed mesh: its vertices, its triangles and the matrix
/// that places it.
pub struct Placed {
    /// Whether the mesh is the cube.
    pub cube: bool,
    pub vertices: Seq<V3>,
    pub faces: Seq<Face>,
    pub placement: Placement,
}

impl Placed {
    /// The vertices as points of the world.
    pub open spec fn world(self) -> Seq<V3> {
        transform_each(self.vertices, self.placement.matrix())
    }

    /// Whether every vertex, placed in the world, lies in front of every one
    /// of the planes or on it: whether none has a negative signed distance.
    pub open spec fn is_in_front_of(self, planes: Seq<Plane>) -> bool {
        forall|p: int| 0 <= p < planes.len() ==> all_in_front(self.world(), #[trigger] planes[p])
    }

    /// Whether the mesh has vertices, and all of them, placed in the world,
    /// lie behind one of the planes.
    pub open spec fn is_behind_one_of(self, planes: Seq<Plane>) -> bool {
        self.vertices.len() > 0 && exists|p: int|
            0 <= p < planes.len() && all_behind(self.world(), #[trigger] planes[p])
    }

    /// Whether every triangle names three vertices that the mesh has.
    pub open spec fn is_indexed(self) -> bool {
        forall|i: int|
            0 <= i < self.faces.len() ==> face_is_indexed(
                #[trigger] self.faces[i],
                self.vertices.len(),
            )
    }
}

/// Whether no point has a negative signed distance from the plane.
pub open spec fn all_in_front(points: Seq<V3>, plane: Plane) -> bool {
    forall|i: int|
        0 <= i < points.len() ==> plane_signed_distance(
            plane.normal@,
            plane.distance@,
            #[trigger] points[i],
        ) >= 0
}

/// Whether every point has a negative signed distance from the plane.
pub open spec fn all_behind(points: Seq<V3>, plane: Plane) -> bool {
    forall|i: int|
        0 <= i < points.len() ==> plane_signed_distance(
            plane.normal@,
            plane.distance@,
            #[trigger] points[i],
        ) < 0
}

/// The first `n` triangles of a placed mesh as triangles of the world: each
/// with its corners placed. A triangle that names a vertex which the mesh
/// does not have has no corners and is left out.
pub open spec fn placed_patches(placed: Placed, n: nat) -> Seq<Patch>
    decreases n,
{
    if n == 0 {
        Seq::empty()
    } else {
        let before = placed_patches(placed, (n - 1) as nat);
        let f = placed.faces[n - 1];
        if face_is_indexed(f, placed.vertices.len()) {
            before.push(
                Patch {
                    a: m4_transform_point(placed.placement.matrix(), placed.vertices[f.a as int]),
                    b: m4_transform_point(placed.placement.matrix(), placed.vertices[f.b as int]),
                    c: m4_transform_point(placed.placement.matrix(), placed.vertices[f.c as int]),
                    material: f.material,
                },
            )
        } else {
            before
        }
    }
}

/// The corners of a list of triangles, three for each triangle in its order.
pub open spec fn corners_of(patches: Seq<Patch>) -> Seq<V3> {
    Seq::new(
        3 * patches.len(),
        |k: int|
            if k % 3 == 0 {
                patches[k / 3].a
            } else if k % 3 == 1 {
                patches[k / 3].b
            } else {
                patches[k / 3].c
            },
    )
}

/// The faces of a list of triangles whose corners are listed as by
/// [`corners_of`].
pub open spec fn faces_on_corners(patches: Seq<Patch>) -> Seq<Face> {
    Seq::new(
        patches.len(),
        |i: int|
            Face {
                a: (3 * i) as usize,
                b: (3 * i + 1) as usize,
                c: (3 * i + 2) as usize,
                material: patches[i].material,
            },
    )
}

/// The mesh of a list of triangles of the world: their corners as its
/// vertices, and no placement.
pub open spec fn mesh_of(patches: Seq<Patch>) -> Placed {
    Placed {
        cube: false,
        vertices: corners_of(patches),
        faces: faces_on_corners(patches),
        placement: identity_placement(),
    }
}

/// What of a placed mesh lies in front of all the planes.
///
/// A mesh whose vertices all lie in front of every plane is kept as it is,
/// and so is every mesh when there are no planes. A mesh whose vertices all
/// lie behind one of the planes is dropped. A mesh that names a vertex which
/// it does not have cannot be cut and is kept as it is, so that drawing it
/// still reports the fault. Any other mesh is cut: what is left is the mesh
/// of the parts of its triangles in front of every plane, which stands in
/// the world as it is, or nothing when no part is left.
pub open spec fn clip_placed(placed: Placed, planes: Seq<Plane>) -> Option<Placed> {
    if placed.is_in_front_of(planes) {
        Some(placed)
    } else if placed.is_behind_one_of(planes) {
        None
    } else if !placed.is_indexed() {
        Some(placed)
    } else {
        let patches = clip_against(
            placed_patches(placed, placed.faces.len()),
            planes,
            planes.len(),
        );
        if patches.len() == 0 {
            None
        } else {
            Some(mesh_of(patches))
        }
    }
}

/// A mesh that lies behind one of the planes does not lie in front of all of
/// them, and clipping drops it.
pub proof fn lemma_behind_is_dropped(placed: Placed, planes: Seq<Plane>)
    requires
        placed.is_behind_one_of(planes),
    ensures
        !placed.is_in_front_of(planes),
        clip_placed(placed, planes) is None,
{
    let p = choose|p: int| 0 <= p < planes.len() && all_behind(placed.world(), #[trigger] planes[p]);
    let first = placed.world()[0];
    assert(plane_signed_distance(planes[p].normal@, planes[p].distance@, first) < 0);
    if placed.is_in_front_of(planes) {
        assert(all_in_front(placed.world(), planes[p]));
        assert(plane_signed_distance(planes[p].normal@, planes[p].distance@, first) >= 0);
    }
}

/// The identity matrix leaves every representable point where it is.
pub proof fn lemma_identity_keeps_points(v: V3)
    requires
        v3_in_range(v),
    ensures
        m4_transform_point(m4_identity(), v) == v,
{
    let one = ONE_RAW as int;
    assert forall|x: int| #[trigger] div_tz(one * x, one) == x by {
        let a = crate::arith::abs(x);
        assert(crate::arith::abs(one * x) == one * a) by (nonlinear_arith)
            requires
                one == 65536,
                a == crate::arith::abs(x),
        ;
        assert((one * a) / one == a) by (nonlinear_arith)
            requires
                one == 65536,
        ;
        assert((one * x >= 0) == (x >= 0)) by (nonlinear_arith)
            requires
                one == 65536,
        ;
    }
}

/// A clipped mesh stands in the world as the triangles that clipping left:
/// placing it changes none of them.
pub proof fn lemma_clipped_mesh_is_placed(patches: Seq<Patch>, n: nat)
    requires
        n <= patches.len(),
        3 * patches.len() <= usize::MAX,
        forall|i: int|
            0 <= i < patches.len() ==> v3_in_range((#[trigger] patches[i]).a) && v3_in_range(
                patches[i].b,
            ) && v3_in_range(patches[i].c),
    ensures
        placed_patches(mesh_of(patches), n) == patches.take(n as int),
    decreases n,
{
    lemma_identity_matrix();
    if n > 0 {
        lemma_clipped_mesh_is_placed(patches, (n - 1) as nat);
        let p = patches[n - 1];
        lemma_identity_keeps_points(p.a);
        lemma_identity_keeps_points(p.b);
        lemma_identity_keeps_points(p.c);
    }
}

/// A model placed in the world.
#[derive(Debug)]
pub struct Instance {
    pub model: Model,
    pub transform: Transform,
}

impl Clone for Instance {
    fn clone(&self) -> (copy: Instance)
        ensures
            copy@ == self@,
            copy.transform == self.transform,
    {
        Instance { model: self.model.clone(), transform: self.transform }
    }
}

impl View for Instance {
    type V = Placed;

    open spec fn view(&self) -> Placed {
        Placed {
            cube: self.model is Cube,
            vertices: self.model.vertices(),
            faces: self.model.faces(),
            placement: self.transform@,
        }
    }
}

/// The models of a sequence of instances.
pub open spec fn placed_of(instances: Seq<Instance>) -> Seq<Placed> {
    Seq::new(instances.len(), |i: int| instances[i]@)
}

/// The models of an instance that may be missing.
pub open spec fn placed_option(instance: Option<Instance>) -> Option<Placed> {
    match instance {
        Some(i) => Some(i@),
        None => None,
    }
}

impl Instance {
    /// A cube placed by `transform`.
    pub fn new_cube(transform: Transform) -> (i: Instance)
        ensures
            i == (Instance { model: Model::Cube(Cube), transform }),
    {
        Instance { model: Model::Cube(Cube), transform }
    }

    /// A mesh of the given vertices and triangles placed by `transform`.
    pub fn new_mesh(vertices: Vec<Vec3>, triangles: Vec<Triangle>, transform: Transform) -> (i:
        Instance)
        ensures
            i == (Instance { model: Model::Mesh(Mesh { vertices, triangles }), transform }),
    {
        Instance { model: Model::Mesh(Mesh { vertices, triangles }), transform }
    }

    /// The model.
    pub fn get_model(&self) -> (m: &Model)
        ensures
            *m == self.model,
    {
        &self.model
    }

    /// The placement.
    pub fn get_transform(&self) -> (t: &Transform)
        ensures
            *t == self.transform,
    {
        &self.transform
    }

    /// Draws the instance as a camera at the origin that is not turned sees
    /// it: the placement takes the vertices straight to camera space.
    pub fn render(&self, canvas: &mut Canvas) -> (r: Result<(), RenderError>)
        ensures
            final(canvas)@ == draw_model(
                old(canvas)@,
                self@.vertices,
                self@.faces,
                old(canvas).viewport(),
                self@.placement.matrix(),
                false,
            ).surface,
            r == draw_model(
                old(canvas)@,
                self@.vertices,
                self@.faces,
                old(canvas).viewport(),
                self@.placement.matrix(),
                false,
            ).result(),
            final(canvas).viewport() == old(canvas).viewport(),
    {
        let m = self.transform.get_matrix();
        self.model.render_with(canvas, &m, false)
    }

    /// Draws the part of the instance that is on the canvas, as a camera at
    /// the origin that is not turned sees it.
    pub fn render_visible(&self, canvas: &mut Canvas) -> (r: Result<(), RenderError>)
        ensures
            final(canvas)@ == draw_model(
                old(canvas)@,
                self@.vertices,
                self@.faces,
                old(canvas).viewport(),
                self@.placement.matrix(),
                true,
            ).surface,
            r == draw_model(
                old(canvas)@,
                self@.vertices,
                self@.faces,
                old(canvas).viewport(),
                self@.placement.matrix(),
                true,
            ).result(),
            final(canvas).viewport() == old(canvas).viewport(),
    {
        let m = self.transform.get_matrix();
        self.model.render_with(canvas, &m, true)
    }

    /// The triangles of the instance as triangles of the world.
    pub fn world_facets(&self) -> (facets: Vec<Facet>)
        ensures
            patches_of(facets@) == placed_patches(self@, self@.faces.len()),
    {
        let vertices = self.model.get_vertices();
        let triangles = self.model.get_triangles();
        let m = self.transform.get_matrix();
        let n = vertices.len();
        let mut facets: Vec<Facet> = Vec::new();
        let mut i: usize = 0;
        while i < triangles.len()
            invariant
                i <= triangles@.len(),
                n == vertices@.len(),
                m@ == self@.placement.matrix(),
                views(vertices@) == self@.vertices,
                faces_of(triangles@) == self@.faces,
                triangles@.len() == self@.faces.len(),
                vertices@.len() == self@.vertices.len(),
                patches_of(facets@) == placed_patches(self@, i as nat),
            decreases triangles@.len() - i,
        {
            let t = &triangles[i];
            let a = t.vertices[0];
            let b = t.vertices[1];
            let c = t.vertices[2];
            if a < n && b < n && c < n {
                let facet = Facet {
                    a: m.transform_point(vertices[a]),
                    b: m.transform_point(vertices[b]),
                    c: m.transform_point(vertices[c]),
                    material: t.material,
                };
                facets.push(facet);
            }
            i = i + 1;
        }
        facets
    }

    /// The vertices of the instance as points of the world.
    pub fn world_points(&self) -> (world: Vec<Vec3>)
        ensures
            views(world@) == self@.world(),
    {
        let vertices = self.model.get_vertices();
        let m = self.transform.get_matrix();
        let mut world: Vec<Vec3> = Vec::new();
        let mut i: usize = 0;
        while i < vertices.len()
            invariant
                i <= vertices@.len(),
                m@ == self@.placement.matrix(),
                views(vertices@) == self@.vertices,
                world@.len() == i,
                forall|j: int|
                    0 <= j < i ==> (#[trigger] world@[j])@ == m4_transform_point(
                        m@,
                        vertices@[j]@,
                    ),
            decreases vertices@.len() - i,
        {
            world.push(m.transform_point(vertices[i]));
            i = i + 1;
        }
        assert forall|j: int| 0 <= j < world@.len() implies (#[trigger] views(world@)[j])
            == self@.world()[j] by {
            assert(views(vertices@)[j] == vertices@[j]@);
        }
        assert(views(world@) =~= self@.world());
        world
    }

    /// The instance clipped against the planes. An instance whose vertices all
    /// lie in front of every plane is returned as it is, and one whose
    /// vertices all lie behind one of the planes is dropped. An instance that
    /// the planes cut is returned as the mesh of what lies in front of them,
    /// which stands in the world as it is, or dropped when nothing does. An
    /// instance that names a vertex which it does not have is returned as it
    /// is.
    pub fn clip(&self, planes: &Vec<Plane>) -> (r: Option<Instance>)
        ensures
            placed_option(r) == clip_placed(self@, planes@),
            self@.is_in_front_of(planes@) ==> placed_option(r) == Some(self@),
            planes@.len() == 0 ==> placed_option(r) == Some(self@),
            self@.is_behind_one_of(planes@) ==> r is None,
    {
        proof {
            if self@.is_behind_one_of(planes@) {
                lemma_behind_is_dropped(self@, planes@);
            }
        }
        let world = self.world_points();
        if in_front_of_all(&world, planes) {
            return Some(self.clone());
        }
        if world.len() > 0 && behind_one_of(&world, planes) {
            return None;
        }
        let triangles = self.model.get_triangles();
        assert(views(world@).len() == self@.vertices.len());
        assert(faces_of(triangles@).len() == self@.faces.len());
        if !all_indexed(&triangles, world.len()) {
            return Some(self.clone());
        }
        let facets = self.world_facets();
        let clipped = clip_facets_against(facets, planes);
        if clipped.len() == 0 {
            return None;
        }
        let ghost patches = patches_of(clipped@);
        let mut vertices: Vec<Vec3> = Vec::new();
        let mut triangles: Vec<Triangle> = Vec::new();
        let mut i: usize = 0;
        while i < clipped.len()
            invariant
                i <= clipped@.len(),
                patches == patches_of(clipped@),
                vertices@.len() == 3 * i,
                triangles@.len() == i,
                forall|k: int|
                    0 <= k < 3 * i ==> (#[trigger] vertices@[k])@ == corners_of(patches)[k],
                forall|j: int|
                    0 <= j < i ==> (#[trigger] triangles@[j])@ == faces_on_corners(patches)[j],
            decreases clipped@.len() - i,
        {
            let f = &clipped[i];
            vertices.push(f.a);
            vertices.push(f.b);
            vertices.push(f.c);
            let end = vertices.len();
            triangles.push(Triangle::new(end - 3, end - 2, end - 1, f.material));
            i = i + 1;
        }
        let transform = Transform::default();
        let instance = Instance { model: Model::Mesh(Mesh { vertices, triangles }), transform };
        assert(instance@.vertices =~= corners_of(patches));
        assert(instance@.faces =~= faces_on_corners(patches));
        Some(instance)
    }
}

/// Whether no point has a negative signed distance from the plane.
fn in_front(points: &Vec<Vec3>, plane: &Plane) -> (r: bool)
    ensures
        r == all_in_front(views(points@), *plane),
{
    let mut i: usize = 0;
    while i < points.len()
        invariant
            i <= points@.len(),
            forall|j: int|
                0 <= j < i ==> plane_signed_distance(
                    plane.normal@,
                    plane.distance@,
                    #[trigger] views(points@)[j],
                ) >= 0,
        decreases points@.len() - i,
    {
        if plane.signed_distance(&points[i]).lt(Fixed::zero()) {
            assert(views(points@)[i as int] == points@[i as int]@);
            return false;
        }
        assert(views(points@)[i as int] == points@[i as int]@);
        i = i + 1;
    }
    true
}

/// Whether every point has a negative signed distance from the plane.
fn behind(points: &Vec<Vec3>, plane: &Plane) -> (r: bool)
    ensures
        r == all_behind(views(points@), *plane),
{
    let mut i: usize = 0;
    while i < points.len()
        invariant
            i <= points@.len(),
            forall|j: int|
                0 <= j < i ==> plane_signed_distance(
                    plane.normal@,
                    plane.distance@,
                    #[trigger] views(points@)[j],
                ) < 0,
        decreases points@.len() - i,
    {
        if !plane.signed_distance(&points[i]).lt(Fixed::zero()) {
            assert(views(points@)[i as int] == points@[i as int]@);
            return false;
        }
        assert(views(points@)[i as int] == points@[i as int]@);
        i = i + 1;
    }
    true
}

/// Whether the points all lie in front of every one of the planes.
fn in_front_of_all(points: &Vec<Vec3>, planes: &Vec<Plane>) -> (r: bool)
    ensures
        r == (forall|p: int|
            0 <= p < planes@.len() ==> all_in_front(views(points@), #[trigger] planes@[p])),
{
    let mut p: usize = 0;
    while p < planes.len()
        invariant
            p <= planes@.len(),
            forall|q: int| 0 <= q < p ==> all_in_front(views(points@), #[trigger] planes@[q]),
        decreases planes@.len() - p,
    {
        if !in_front(points, &planes[p]) {
            return false;
        }
        p = p + 1;
    }
    true
}

/// Whether the points all lie behind one of the planes.
fn behind_one_of(points: &Vec<Vec3>, planes: &Vec<Plane>) -> (r: bool)
    ensures
        r == (exists|p: int|
            0 <= p < planes@.len() && all_behind(views(points@), #[trigger] planes@[p])),
{
    let mut p: usize = 0;
    while p < planes.len()
        invariant
            p <= planes@.len(),
            forall|q: int| 0 <= q < p ==> !all_behind(views(points@), #[trigger] planes@[q]),
        decreases planes@.len() - p,
    {
        if behind(points, &planes[p]) {
            return true;
        }
        p = p + 1;
    }
    false
}

/// Whether every triangle names three of the first `n` vertices.
fn all_indexed(triangles: &Vec<Triangle>, n: usize) -> (r: bool)
    ensures
        r == (forall|i: int|
            0 <= i < triangles@.len() ==> face_is_indexed(
                #[trigger] faces_of(triangles@)[i],
                n as nat,
            )),
{
    let mut i: usize = 0;
    while i < triangles.len()
        invariant
            i <= triangles@.len(),
            forall|j: int|
                0 <= j < i ==> face_is_indexed(#[trigger] faces_of(triangles@)[j], n as nat),
        decreases triangles@.len() - i,
    {
        let t = &triangles[i];
        assert(faces_of(triangles@)[i as int] == t@);
        if t.vertices[0] >= n || t.vertices[1] >= n || t.vertices[2] >= n {
            return false;
        }
        i = i + 1;
    }
    true
}

} // verus!
