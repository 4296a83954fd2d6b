//! The scene of the rasterizer: a list of placed models that is drawn in
//! order, one frame at a time.
use crate::camera::Camera;
use crate::canvas::{Canvas, Viewport};
use crate::math::Plane;
use crate::matrix::{m4_mul, M4};
use crate::models::{clip_placed, draw_model, placed_of, Instance, Outcome, Placed};
use crate::surface::{RenderError, Surface};
use vstd::prelude::*;

verus! {

/// What of the first `n` placed meshes lies in front of all the planes: the
/// clipped meshes of those of which something does, in their order.
pub open spec fn clip_scene(placed: Seq<Placed>, planes: Seq<Plane>, n: nat) -> Seq<Placed>
    decreases n,
{
    if n == 0 {
        Seq::empty()
    } else {
        let before = clip_scene(placed, planes, (n - 1) as nat);
        match clip_placed(placed[n - 1], planes) {
            Some(p) => before.push(p),
            None => before,
        }
    }
}

/// Clipping drops meshes and adds none; without planes it drops none and
/// changes none; and a mesh whose vertices all lie in front of every plane
/// is in the result as it is.
pub proof fn lemma_clip_scene(placed: Seq<Placed>, planes: Seq<Plane>, n: nat)
    requires
        n <= placed.len(),
    ensures
        clip_scene(placed, planes, n).len() <= n,
        planes.len() == 0 ==> clip_scene(placed, planes, n) == placed.take(n as int),
        (forall|i: int| 0 <= i < n ==> (#[trigger] placed[i]).is_in_front_of(planes))
            ==> clip_scene(placed, planes, n) == placed.take(n as int),
    decreases n,
{
    if n > 0 {
        lemma_clip_scene(placed, planes, (n - 1) as nat);
        let before = clip_scene(placed, planes, (n - 1) as nat);
        if planes.len() == 0 {
            assert(placed[n - 1].is_in_front_of(planes));
            assert(before.push(placed[n - 1]) =~= placed.take(n as int));
        }
        if forall|i: int| 0 <= i < n ==> (#[trigger] placed[i]).is_in_front_of(planes) {
            assert(placed[n - 1].is_in_front_of(planes));
            assert(before.push(placed[n - 1]) =~= placed.take(n as int));
        }
    } else {
        assert(clip_scene(placed, planes, 0) =~= placed.take(0));
    }
}

/// What drawing one placed mesh does when `camera` takes the world to camera
/// space: its vertices are placed in the world, taken to camera space by one
/// composed transformation and projected, and its triangles are drawn in
/// order.
pub open spec fn draw_instance(s: Surface, placed: Placed, viewport: Viewport, camera: M4, skip_outside: bool) -> Outcome {
    draw_model(
        s,
        placed.vertices,
        placed.faces,
        viewport,
        m4_mul(camera, placed.placement.matrix()),
        skip_outside,
    )
}

/// What drawing the first `n` placed meshes in order does: the first error
/// stops the frame, and the meshes after it are not drawn.
pub open spec fn draw_scene(
    s: Surface,
    placed: Seq<Placed>,
    viewport: Viewport,
    camera: M4,
    n: nat,
    skip_outside: bool,
) -> Outcome
    decreases n,
{
    if n == 0 {
        Outcome { surface: s, error: None }
    } else {
        let before = draw_scene(s, placed, viewport, camera, (n - 1) as nat, skip_outside);
        if before.error is Some {
            before
        } else {
            draw_instance(before.surface, placed[n - 1], viewport, camera, skip_outside)
        }
    }
}

/// Once a frame has stopped with an error, the instances that follow change
/// nothing.
pub proof fn lemma_draw_scene_stops(
    s: Surface,
    placed: Seq<Placed>,
    viewport: Viewport,
    camera: M4,
    k: nat,
    n: nat,
    skip_outside: bool,
)
    requires
        k <= n,
        draw_scene(s, placed, viewport, camera, k, skip_outside).error is Some,
    ensures
        draw_scene(s, placed, viewport, camera, n, skip_outside) == draw_scene(s, placed, viewport, camera, k, skip_outside),
    decreases n,
{
    if k < n {
        lemma_draw_scene_stops(s, placed, viewport, camera, k, (n - 1) as nat, skip_outside);
    }
}

/// The placed models of a frame, in drawing order.
#[derive(Debug)]
pub struct Scene {
    pub instances: Vec<Instance>,
}

impl Default for Scene {
    /// The empty scene.
    fn default() -> (s: Scene)
        ensures
            s.instances@ == Seq::<Instance>::empty(),
    {
        Scene { instances: Vec::new() }
    }
}

impl Scene {
    /// The instances in drawing order.
    pub fn get_instances(&self) -> (i: &Vec<Instance>)
        ensures
            *i == self.instances,
    {
        &self.instances
    }

    /// Adds an instance, which is drawn after those that are there.
    pub fn add_instance(&mut self, instance: Instance)
        ensures
            final(self).instances@ == old(self).instances@.push(instance),
    {
        self.instances.push(instance);
    }

    /// The scene clipped against the planes: each instance clipped, in the
    /// order of the instances. An instance in front of every plane is in the
    /// result as it is, one behind a plane is left out, and one that the
    /// planes cut is there as the mesh of what lies in front of them, unless
    /// nothing does. Without planes the result is the scene as it is.
    pub fn clip(&self, planes: &Vec<Plane>) -> (clipped: Scene)
        ensures
            placed_of(clipped.instances@) == clip_scene(
                placed_of(self.instances@),
                planes@,
                self.instances@.len(),
            ),
            clipped.instances@.len() <= self.instances@.len(),
            planes@.len() == 0 ==> placed_of(clipped.instances@) == placed_of(self.instances@),
    {
        proof {
            let placed = placed_of(self.instances@);
            lemma_clip_scene(placed, planes@, self.instances@.len());
            assert(placed.take(placed.len() as int) == placed);
        }
        let mut clipped_instances: Vec<Instance> = Vec::new();
        let mut i: usize = 0;
        while i < self.instances.len()
            invariant
                i <= self.instances@.len(),
                placed_of(clipped_instances@) == clip_scene(
                    placed_of(self.instances@),
                    planes@,
                    i as nat,
                ),
            decreases self.instances@.len() - i,
        {
            match self.instances[i].clip(planes) {
                Some(instance) => {
                    clipped_instances.push(instance);
                },
                None => {},
            }
            i = i + 1;
        }
        Scene { instances: clipped_instances }
    }

    /// Draws the scene as the camera sees it: each instance in order, up to
    /// the first error, which ends the frame.
    pub fn render(&self, canvas: &mut Canvas, camera: &Camera) -> (r: Result<(), RenderError>)
        ensures
            final(canvas)@ == draw_scene(
                old(canvas)@,
                placed_of(self.instances@),
                old(canvas).viewport(),
                camera.matrix(),
                self.instances@.len(),
                false,
            ).surface,
            r == draw_scene(
                old(canvas)@,
                placed_of(self.instances@),
                old(canvas).viewport(),
                camera.matrix(),
                self.instances@.len(),
                false,
            ).result(),
            final(canvas).viewport() == old(canvas).viewport(),
    {
        self.render_with(canvas, camera, false)
    }

    /// Draws the part of the scene that is on the canvas, as the camera sees
    /// it: a pixel outside the canvas is passed over, and only an instance
    /// that names a missing vertex ends the frame.
    pub fn render_visible(&self, canvas: &mut Canvas, camera: &Camera) -> (r: Result<(), RenderError>)
        ensures
            final(canvas)@ == draw_scene(
                old(canvas)@,
                placed_of(self.instances@),
                old(canvas).viewport(),
                camera.matrix(),
                self.instances@.len(),
                true,
            ).surface,
            r == draw_scene(
                old(canvas)@,
                placed_of(self.instances@),
                old(canvas).viewport(),
                camera.matrix(),
                self.instances@.len(),
                true,
            ).result(),
            final(canvas).viewport() == old(canvas).viewport(),
    {
        self.render_with(canvas, camera, true)
    }

    /// Draws the scene as the camera sees it: each instance in order, up to
    /// the first error, which ends the frame.
    /// With `skip_outside`, a pixel outside the canvas is passed over where it
    /// would otherwise stop the drawing.
    fn render_with(&self, canvas: &mut Canvas, camera: &Camera, skip_outside: bool) -> (r: Result<
        (),
        RenderError,
    >)
        ensures
            final(canvas)@ == draw_scene(
                old(canvas)@,
                placed_of(self.instances@),
                old(canvas).viewport(),
                camera.matrix(),
                self.instances@.len(),
                skip_outside,
            ).surface,
            r == draw_scene(
                old(canvas)@,
                placed_of(self.instances@),
                old(canvas).viewport(),
                camera.matrix(),
                self.instances@.len(),
                skip_outside,
            ).result(),
            final(canvas).viewport() == old(canvas).viewport(),
    {
        let m_camera = camera.get_matrix();
        let mut i: usize = 0;
        while i < self.instances.len()
            invariant
                i <= self.instances@.len(),
                m_camera@ == camera.matrix(),
                canvas.viewport() == old(canvas).viewport(),
                draw_scene(
                    old(canvas)@,
                    placed_of(self.instances@),
                    old(canvas).viewport(),
                    camera.matrix(),
                    i as nat,
                    skip_outside,
                ) == (Outcome { surface: canvas@, error: None }),
            decreases self.instances@.len() - i,
        {
            let instance = &self.instances[i];
            let m = m_camera.mul_mat4(&instance.get_transform().get_matrix());
            match instance.get_model().render_with(canvas, &m, skip_outside) {
                Ok(()) => {},
                Err(e) => {
                    proof {
                        lemma_draw_scene_stops(
                            old(canvas)@,
                            placed_of(self.instances@),
                            old(canvas).viewport(),
                            camera.matrix(),
                            (i + 1) as nat,
                            self.instances@.len(),
                            skip_outside,
                        );
                    }
                    return Err(e);
                },
            }
            i = i + 1;
        }
        Ok(())
    }
}

} // verus!
