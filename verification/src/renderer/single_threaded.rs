//! A renderer that walks every pixel in order, in one task.

use vstd::prelude::*;

use crate::camera::Camera;
use crate::color::Framebuffer;
use crate::renderer::kernel::{is_rendered_pixel, pixel_color, rendered_pixel_at, Renderer};
use crate::scene_graph::Scene;

verus! {

/// A single-task renderer holding its own framebuffer.
pub struct SingleThreadedRenderer {
    camera: Camera,
    framebuffer: Framebuffer,
    number_of_samples: u32,
}

impl SingleThreadedRenderer {
    /// The camera configuration.
    pub closed spec fn spec_camera(&self) -> Camera {
        self.camera
    }

    /// Samples per pixel.
    pub closed spec fn spec_samples(&self) -> u32 {
        self.number_of_samples
    }

    /// The pixels of the internal framebuffer.
    pub closed spec fn fb_view(&self) -> Seq<u32> {
        self.framebuffer@
    }

    /// Creates a renderer with a fresh framebuffer at the camera's
    /// resolution.
    pub fn new(camera: Camera, number_of_samples: u32) -> (r: SingleThreadedRenderer)
        requires
            camera.wf(),
            number_of_samples >= 1,
        ensures
            r.wf(),
            r.spec_camera() == camera,
            r.spec_samples() == number_of_samples,
            r.fb_view().len() == (camera.width as int) * (camera.height as int),
    {
        let framebuffer = Framebuffer::new(camera.width as usize, camera.height as usize);
        SingleThreadedRenderer { camera, framebuffer, number_of_samples }
    }
}

impl Renderer for SingleThreadedRenderer {
    /// Camera and framebuffer agree on the resolution, and at least one
    /// sample is drawn per pixel.
    closed spec fn wf(&self) -> bool {
        &&& self.camera.wf()
        &&& self.number_of_samples >= 1
        &&& self.framebuffer.wf()
        &&& self.framebuffer.spec_width() == self.camera.width as int
        &&& self.framebuffer.spec_height() == self.camera.height as int
    }

    /// Renders the scene into the internal framebuffer: afterwards every
    /// pixel is a rendered pixel (gamma-corrected, fully opaque), and
    /// pixel `(x, y)` holds an admissible sampling of exactly that pixel
    /// of this camera, scene and sample count.
    fn render(&mut self, scene: &Scene)
        ensures
            final(self).spec_camera() == old(self).spec_camera(),
            final(self).spec_samples() == old(self).spec_samples(),
            forall|i: int|
                0 <= i < final(self).fb_view().len() ==> is_rendered_pixel(
                    #[trigger] final(self).fb_view()[i],
                ),
            forall|qx: int, qy: int|
                0 <= qx < old(self).spec_camera().width && 0 <= qy < old(
                    self,
                ).spec_camera().height ==> #[trigger] rendered_pixel_at(
                    old(self).spec_camera(),
                    scene@,
                    old(self).spec_samples(),
                    final(self).fb_view(),
                    old(self).spec_camera().width as int,
                    qx,
                    qy,
                ),
    {
        let camera = self.camera;
        let number_of_samples = self.number_of_samples;
        let width = camera.width;
        let height = camera.height;
        let mut y: u32 = 0;
        while y < height
            invariant
                y <= height,
                camera.wf(),
                scene.wf(),
                number_of_samples >= 1,
                width == camera.width,
                height == camera.height,
                self.camera == camera,
                self.number_of_samples == number_of_samples,
                self.framebuffer.wf(),
                self.framebuffer.spec_width() == width as int,
                self.framebuffer.spec_height() == height as int,
                forall|i: int|
                    0 <= i < (y as int) * (width as int) ==> is_rendered_pixel(
                        #[trigger] self.framebuffer@[i],
                    ),
                forall|qx: int, qy: int|
                    0 <= qx < width && 0 <= qy < y as int ==> #[trigger] rendered_pixel_at(
                        camera,
                        scene@,
                        number_of_samples,
                        self.framebuffer@,
                        width as int,
                        qx,
                        qy,
                    ),
            decreases height - y,
        {
            let mut x: u32 = 0;
            while x < width
                invariant
                    x <= width,
                    y < height,
                    camera.wf(),
                    scene.wf(),
                    number_of_samples >= 1,
                    width == camera.width,
                    height == camera.height,
                    self.camera == camera,
                    self.number_of_samples == number_of_samples,
                    self.framebuffer.wf(),
                    self.framebuffer.spec_width() == width as int,
                    self.framebuffer.spec_height() == height as int,
                    forall|i: int|
                        0 <= i < (y as int) * (width as int) + x as int ==> is_rendered_pixel(
                            #[trigger] self.framebuffer@[i],
                        ),
                    forall|qx: int, qy: int|
                        0 <= qx < width && 0 <= qy < height && (qy < y as int || (qy == y as int
                            && qx < x as int)) ==> #[trigger] rendered_pixel_at(
                            camera,
                            scene@,
                            number_of_samples,
                            self.framebuffer@,
                            width as int,
                            qx,
                            qy,
                        ),
                decreases width - x,
            {
                let pixel = pixel_color(&camera, scene, x, y, number_of_samples);
                let ghost prev = self.framebuffer@;
                self.framebuffer.put_pixel(x as usize, y as usize, pixel);
                proof {
                    crate::color::lemma_grid_index(
                        width as int,
                        height as int,
                        x as int,
                        y as int,
                    );
                    let idx = (y as int) * (width as int) + x as int;
                    assert forall|i: int| 0 <= i < idx + 1 implies is_rendered_pixel(
                        #[trigger] self.framebuffer@[i],
                    ) by {
                        if i < idx {
                            assert(self.framebuffer@[i] == prev[i]);
                        } else {
                            assert(self.framebuffer@[i] == pixel);
                        }
                    }
                    assert forall|qx: int, qy: int|
                        0 <= qx < width && 0 <= qy < height && (qy < y as int || (qy == y as int
                            && qx <= x as int)) implies #[trigger] rendered_pixel_at(
                        camera,
                        scene@,
                        number_of_samples,
                        self.framebuffer@,
                        width as int,
                        qx,
                        qy,
                    ) by {
                        crate::color::lemma_grid_index(width as int, height as int, qx, qy);
                        let j = qy * (width as int) + qx;
                        if j == idx {
                            vstd::arithmetic::div_mod::lemma_fundamental_div_mod_converse_div(
                                j,
                                width as int,
                                qy,
                                qx,
                            );
                            vstd::arithmetic::div_mod::lemma_fundamental_div_mod_converse_div(
                                idx,
                                width as int,
                                y as int,
                                x as int,
                            );
                            vstd::arithmetic::div_mod::lemma_fundamental_div_mod_converse_mod(
                                j,
                                width as int,
                                qy,
                                qx,
                            );
                            vstd::arithmetic::div_mod::lemma_fundamental_div_mod_converse_mod(
                                idx,
                                width as int,
                                y as int,
                                x as int,
                            );
                            assert(qx == x as int && qy == y as int);
                            assert(self.framebuffer@[j] == pixel);
                        } else {
                            assert(self.framebuffer@[j] == prev[j]);
                            assert(rendered_pixel_at(
                                camera,
                                scene@,
                                number_of_samples,
                                prev,
                                width as int,
                                qx,
                                qy,
                            ));
                        }
                    }
                }
                x = x + 1;
            }
            proof {
                assert(((y as int) + 1) * (width as int) == (y as int) * (width as int)
                    + width as int) by (nonlinear_arith);
            }
            y = y + 1;
        }
        proof {
            assert((height as int) * (width as int) == (width as int) * (height as int))
                by (nonlinear_arith);
        }
    }

    /// Returns a copy of the rendered framebuffer.
    fn framebuffer(&self) -> (r: Framebuffer)
        ensures
            r@ == self.fb_view(),
            r.spec_width() == self.spec_camera().width as int,
            r.spec_height() == self.spec_camera().height as int,
    {
        self.framebuffer.clone()
    }
}

} // verus!
