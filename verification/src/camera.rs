//! The camera: an immutable configuration that maps a discrete pixel
//! coordinate, plus an optional sub-pixel jitter, to a world-space ray.

use vstd::prelude::*;

use crate::fixed::{
    fx_add, fx_add_s, fx_div, fx_div_s, fx_idiv, fx_mul, fx_mul_s, fx_sqrt_s, lemma_tdiv_bounds,
    tdiv, FX_ONE,
};
use crate::ray::Ray;
use crate::rng::rand_in_range;
use crate::vec3::{cross_s, dot_s, in_unit_box, vadd_s, vnorm_s, vscale_s, vsub_s, Vec3};

verus! {

/// The forward basis vector: the unit direction from the eye to the target.
pub open spec fn view_w_s(look_from: Vec3, look_at: Vec3) -> (int, int, int) {
    vnorm_s(vsub_s(look_at@, look_from@))
}

/// The horizontal basis vector: world up crossed with the forward vector,
/// normalised. (Camera up is world up: no roll.)
pub open spec fn view_u_s(look_from: Vec3, look_at: Vec3) -> (int, int, int) {
    vnorm_s(cross_s((0int, FX_ONE as int, 0int), view_w_s(look_from, look_at)))
}

/// The vertical basis vector.
pub open spec fn view_v_s(look_from: Vec3, look_at: Vec3) -> (int, int, int) {
    cross_s(view_u_s(look_from, look_at), view_w_s(look_from, look_at))
}

/// The distance from the eye to the target.
pub open spec fn focal_length_s(look_from: Vec3, look_at: Vec3) -> int {
    fx_sqrt_s(dot_s(vsub_s(look_at@, look_from@), vsub_s(look_at@, look_from@)))
}

/// The world-space height of the viewport: the sensor height plus the
/// focal length.
pub open spec fn viewport_height_s(sensor_height: int, look_from: Vec3, look_at: Vec3) -> int {
    fx_add_s(sensor_height, focal_length_s(look_from, look_at))
}

/// The world-space width of the viewport: the height scaled by the aspect
/// ratio.
pub open spec fn viewport_width_s(
    sensor_height: int,
    look_from: Vec3,
    look_at: Vec3,
    width: int,
    height: int,
) -> int {
    fx_div_s(
        fx_mul_s(viewport_height_s(sensor_height, look_from, look_at), width * (FX_ONE as int)),
        height * (FX_ONE as int),
    )
}

/// An immutable camera configuration. `f(x, y) = pixel_center
/// + x * pixel_delta_u + y * pixel_delta_v`, for pixel offsets `x`, `y`
/// measured from the image centre.
#[derive(Clone, Copy, Debug)]
pub struct Camera {
    pub width: u32,
    pub height: u32,
    pub bounce_depth: u32,
    pub pos: Vec3,
    pub pixel_delta_u: Vec3,
    pub pixel_delta_v: Vec3,
    pub pixel_center: Vec3,
}

impl Camera {
    /// The world-space step per horizontal pixel.
    pub open spec fn delta_u_s(&self) -> (int, int, int) {
        self.pixel_delta_u@
    }

    /// The world-space step per vertical pixel.
    pub open spec fn delta_v_s(&self) -> (int, int, int) {
        self.pixel_delta_v@
    }

    /// The world-space centre of the image.
    pub open spec fn center_s(&self) -> (int, int, int) {
        self.pixel_center@
    }

    /// A usable resolution: both dimensions positive, and the pixel count
    /// addressable.
    pub open spec fn wf(&self) -> bool {
        &&& 1 <= self.width
        &&& 1 <= self.height
        &&& (self.width as int) * (self.height as int) <= usize::MAX as int
    }

    /// Builds a camera looking from `look_from` toward `look_at`, with
    /// camera up equal to world up. `sensor_height` is the world-space
    /// height the viewport adds beyond the focal length; a caller working
    /// from an angular field of view passes twice the tangent of half that
    /// angle.
    pub fn new(
        width: u32,
        height: u32,
        bounce_depth: u32,
        sensor_height: i64,
        look_from: Vec3,
        look_at: Vec3,
    ) -> (r: Camera)
        requires
            1 <= width,
            1 <= height,
            (width as int) * (height as int) <= usize::MAX as int,
        ensures
            r.width == width,
            r.height == height,
            r.bounce_depth == bounce_depth,
            r.pos == look_from,
            r.center_s() == look_at@,
            r.delta_u_s() == vscale_s(
                view_u_s(look_from, look_at),
                fx_div_s(
                    viewport_width_s(
                        sensor_height as int,
                        look_from,
                        look_at,
                        width as int,
                        height as int,
                    ),
                    width * (FX_ONE as int),
                ),
            ),
            r.delta_v_s() == vscale_s(
                view_v_s(look_from, look_at),
                fx_div_s(
                    viewport_height_s(sensor_height as int, look_from, look_at),
                    height * (FX_ONE as int),
                ),
            ),
            r.wf(),
    {
        let up = Vec3 { x: 0, y: FX_ONE, z: 0 };
        let w = look_at.sub(look_from).normalized();
        let u = up.cross(w).normalized();
        let v = u.cross(w);

        let focal_length = look_at.sub(look_from).length();
        let viewport_height = fx_add(sensor_height, focal_length);
        let width_fx: i64 = (width as i64) * FX_ONE;
        let height_fx: i64 = (height as i64) * FX_ONE;
        let viewport_width = fx_div(fx_mul(viewport_height, width_fx), height_fx);

        Camera {
            width,
            height,
            bounce_depth,
            pos: look_from,
            pixel_delta_u: u.scale(fx_div(viewport_width, width_fx)),
            pixel_delta_v: v.scale(fx_div(viewport_height, height_fx)),
            pixel_center: look_at,
        }
    }

    /// The signed fixed-point offset of pixel column `x` from the image
    /// centre, plus a jitter.
    pub open spec fn jittered_x_s(&self, x: int, jx: int) -> int {
        fx_add_s(x * (FX_ONE as int) - (self.width as int) * 32768, jx)
    }

    /// The signed fixed-point offset of pixel row `y` from the image
    /// centre, plus a jitter.
    pub open spec fn jittered_y_s(&self, y: int, jy: int) -> int {
        fx_add_s(y * (FX_ONE as int) - (self.height as int) * 32768, jy)
    }

    /// The normalised direction from the eye through the jittered sample
    /// position of pixel `(x, y)`.
    pub open spec fn ray_dir_s(&self, x: int, y: int, jx: int, jy: int) -> (int, int, int) {
        vnorm_s(
            vsub_s(
                vadd_s(
                    vadd_s(
                        self.center_s(),
                        vscale_s(self.delta_u_s(), self.jittered_x_s(x, jx)),
                    ),
                    vscale_s(self.delta_v_s(), self.jittered_y_s(y, jy)),
                ),
                self.pos@,
            ),
        )
    }

    /// Casts a ray from the camera through pixel `(x, y)`, jittered
    /// uniformly by up to half of `multi_sample_range` in each direction.
    /// With a zero range the ray is the exact centre ray of the pixel.
    pub fn get_ray(self, x: u32, y: u32, multi_sample_range: i64) -> (r: Ray)
        requires
            multi_sample_range >= 0,
            x < self.width,
            y < self.height,
        ensures
            r.pos == self.pos,
            exists|jx: int, jy: int|
                {
                    &&& -tdiv(multi_sample_range as int, 2) <= jx <= tdiv(
                        multi_sample_range as int,
                        2,
                    )
                    &&& -tdiv(multi_sample_range as int, 2) <= jy <= tdiv(
                        multi_sample_range as int,
                        2,
                    )
                    &&& r.dir@ == self.ray_dir_s(x as int, y as int, jx, jy)
                },
            multi_sample_range == 0 ==> r.dir@ == self.ray_dir_s(x as int, y as int, 0, 0),
            in_unit_box(r.dir@),
    {
        proof {
            lemma_tdiv_bounds(multi_sample_range as int, 2);
        }
        let half = fx_idiv(multi_sample_range, 2);
        let jx = rand_in_range(-half, half);
        let jy = rand_in_range(-half, half);
        let base_x: i64 = (x as i64) * FX_ONE - (self.width as i64) * 32768;
        let base_y: i64 = (y as i64) * FX_ONE - (self.height as i64) * 32768;
        let xo = fx_add(base_x, jx);
        let yo = fx_add(base_y, jy);
        let pixel_position = self
            .pixel_center
            .add(self.pixel_delta_u.scale(xo))
            .add(self.pixel_delta_v.scale(yo));
        let dir = pixel_position.sub(self.pos).normalized();
        let r = Ray { pos: self.pos, dir };
        proof {
            assert(r.dir@ == self.ray_dir_s(x as int, y as int, jx as int, jy as int));
        }
        r
    }
}

} // verus!
