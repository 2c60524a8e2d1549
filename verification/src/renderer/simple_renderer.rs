//! A renderer that drives the framebuffer's own shader loop.

use vstd::prelude::*;

use crate::camera::Camera;
use crate::color::Framebuffer;
use crate::renderer::kernel::{
    is_rendered_pixel, pixel_admissible, pixel_color, rendered_pixel_at, Renderer,
};
use crate::scene_graph::Scene;

verus! {

/// A renderer that hands the per-pixel sampler to
/// [`Framebuffer::for_each`] as a shader.
pub struct SimpleRenderer {
    pub camera: Camera,
    pub number_of_samples: u32,
    framebuffer: Framebuffer,
}

impl SimpleRenderer {
    /// The camera configuration.
    pub closed spec fn spec_camera(&self) -> Camera {
        self.camera
    }

    /// Samples per pixel.
    pub closed spec fn spec_samples(&self) -> u32 {
        self.number_of_samples
    }

    /// The pixels of the internal framebuffer.
    pub closed spec fn fb_view(&self) -> Seq<u32> {
        self.framebuffer@
    }

    /// Creates a renderer with a fresh framebuffer at the camera's
    /// resolution.
    pub fn new(camera: Camera, number_of_samples: u32) -> (r: SimpleRenderer)
        requires
            camera.wf(),
            number_of_samples >= 1,
        ensures
            r.wf(),
            r.spec_camera() == camera,
            r.spec_samples() == number_of_samples,
            r.fb_view().len() == (camera.width as int) * (camera.height as int),
    {
        let framebuffer = Framebuffer::new(camera.width as usize, camera.height as usize);
        SimpleRenderer { camera, framebuffer, number_of_samples }
    }
}

impl Renderer for SimpleRenderer {
    /// Camera and framebuffer agree on the resolution, and at least one
    /// sample is drawn per pixel.
    closed spec fn wf(&self) -> bool {
        &&& self.camera.wf()
        &&& self.number_of_samples >= 1
        &&& self.framebuffer.wf()
        &&& self.framebuffer.spec_width() == self.camera.width as int
        &&& self.framebuffer.spec_height() == self.camera.height as int
    }

    /// Renders the scene by running the per-pixel sampler as a shader over
    /// the framebuffer: afterwards every pixel of the grid is a rendered
    /// pixel, and pixel `(x, y)` holds an admissible sampling of exactly
    /// that pixel of this camera, scene and sample count.
    fn render(&mut self, scene: &Scene)
        ensures
            final(self).spec_camera() == old(self).spec_camera(),
            final(self).spec_samples() == old(self).spec_samples(),
            forall|x: usize, y: usize|
                (x as int) < old(self).spec_camera().width && (y as int) < old(
                    self,
                ).spec_camera().height ==> is_rendered_pixel(
                    #[trigger] final(self).fb_view()[y * old(self).spec_camera().width as int
                        + x],
                ),
            forall|qx: int, qy: int|
                0 <= qx < old(self).spec_camera().width && 0 <= qy < old(
                    self,
                ).spec_camera().height ==> #[trigger] rendered_pixel_at(
                    old(self).spec_camera(),
                    scene@,
                    old(self).spec_samples(),
                    final(self).fb_view(),
                    old(self).spec_camera().width as int,
                    qx,
                    qy,
                ),
    {
        let camera = self.camera;
        let number_of_samples = self.number_of_samples;
        let shader = |x: usize, y: usize| -> (p: u32)
            requires
                camera.wf(),
                scene.wf(),
                number_of_samples >= 1,
                (x as int) < camera.width,
                (y as int) < camera.height,
            ensures
                is_rendered_pixel(p),
                pixel_admissible(
                    camera,
                    scene@,
                    x as int,
                    y as int,
                    number_of_samples,
                    p,
                ),
            { pixel_color(&camera, scene, x as u32, y as u32, number_of_samples) };
        self.framebuffer.for_each(shader);
        proof {
            let width = camera.width as int;
            assert forall|qx: int, qy: int|
                0 <= qx < camera.width && 0 <= qy < camera.height implies
                #[trigger] rendered_pixel_at(
                camera,
                scene@,
                number_of_samples,
                self.framebuffer@,
                width,
                qx,
                qy,
            ) by {
                let ux = qx as usize;
                let uy = qy as usize;
                assert(call_ensures(
                    shader,
                    (ux, uy),
                    self.framebuffer@[uy * self.framebuffer.spec_width() + ux],
                ));
                assert(uy * self.framebuffer.spec_width() + ux == qy * width + qx);
            }
        }
    }

    /// Returns a copy of the rendered framebuffer.
    fn framebuffer(&self) -> (r: Framebuffer)
        ensures
            r@ == self.fb_view(),
            r.spec_width() == self.spec_camera().width as int,
            r.spec_height() == self.spec_camera().height as int,
    {
        self.framebuffer.clone()
    }
}

} // verus!
