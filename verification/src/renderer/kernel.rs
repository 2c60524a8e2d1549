//! The intersection kernel, the light-transport kernel, and the per-pixel
//! sampling they feed.

use vstd::prelude::*;

use crate::camera::Camera;
use crate::color::{gamma_s, with_alpha_s, Color, Framebuffer};
use crate::fixed::{
    fx_add, fx_add_s, fx_div, fx_div_s, fx_idiv, fx_mul, fx_mul_s, fx_neg, fx_neg_s, fx_sqrt,
    fx_sqrt_s, fx_sub, fx_sub_s, lemma_fx_mul_attenuates, tdiv, FX_MAX, FX_ONE,
};
use crate::interval::Interval;
use crate::ray::{reflect_dir_s, HitResult, Ray};
use crate::scene_graph::material::scatter_dir_admissible;
use crate::scene_graph::{Material, Prim, Scene, SceneNode};
use crate::vec3::{
    dot_s, lemma_dot_neg, vadd_s, vdiv_s, vhad_s, vneg_s, vscale_s, vsub_s, Vec3,
};

verus! {

/// The smallest ray parameter that counts as a real intersection; excludes
/// self-intersection at the origin of scattered rays.
pub const HIT_EPS: i64 = 7;

/// Each colour channel lies in `[0, 1]` in fixed point.
pub open spec fn color_in_unit(c: (int, int, int)) -> bool {
    &&& 0 <= c.0 <= FX_ONE as int
    &&& 0 <= c.1 <= FX_ONE as int
    &&& 0 <= c.2 <= FX_ONE as int
}

/// The configured background colour: the sky a missing ray sees.
pub open spec fn background_s() -> (int, int, int) {
    (26214int, 39321int, 55705int)
}

/// Black: full absorption.
pub open spec fn black_s() -> (int, int, int) {
    (0int, 0int, 0int)
}

/// The background colour as a value.
pub fn background_color() -> (r: Vec3)
    ensures
        r@ == background_s(),
{
    Vec3 { x: 26214, y: 39321, z: 55705 }
}

/// Attenuating a non-negative radiance by an albedo whose channels lie in
/// `[0, 1]` cannot increase any channel, nor drive one negative: scattering
/// never invents energy.
pub proof fn lemma_energy_non_amplification(albedo: (int, int, int), c: (int, int, int))
    requires
        0 <= albedo.0 <= FX_ONE as int,
        0 <= albedo.1 <= FX_ONE as int,
        0 <= albedo.2 <= FX_ONE as int,
        0 <= c.0,
        0 <= c.1,
        0 <= c.2,
    ensures
        0 <= vhad_s(albedo, c).0 <= c.0,
        0 <= vhad_s(albedo, c).1 <= c.1,
        0 <= vhad_s(albedo, c).2 <= c.2,
{
    lemma_fx_mul_attenuates(albedo.0, c.0);
    lemma_fx_mul_attenuates(albedo.1, c.1);
    lemma_fx_mul_attenuates(albedo.2, c.2);
}

/// The squared length of the ray direction.
pub open spec fn sphere_a(ray: Ray) -> int {
    dot_s(ray.dir@, ray.dir@)
}

/// The vector from the sphere's centre to the ray origin.
pub open spec fn sphere_oc(ray: Ray, prim: Prim) -> (int, int, int) {
    vsub_s(ray.pos@, prim.center_s())
}

/// Half the linear coefficient of the sphere quadratic.
pub open spec fn sphere_half_b(ray: Ray, prim: Prim) -> int {
    dot_s(sphere_oc(ray, prim), ray.dir@)
}

/// The constant coefficient of the sphere quadratic.
pub open spec fn sphere_c(ray: Ray, prim: Prim) -> int {
    fx_sub_s(
        dot_s(sphere_oc(ray, prim), sphere_oc(ray, prim)),
        fx_mul_s(prim.radius_s(), prim.radius_s()),
    )
}

/// The discriminant of the sphere quadratic; negative means no real root,
/// hence no intersection.
pub open spec fn sphere_disc(ray: Ray, prim: Prim) -> int {
    fx_sub_s(
        fx_mul_s(sphere_half_b(ray, prim), sphere_half_b(ray, prim)),
        fx_mul_s(sphere_a(ray), sphere_c(ray, prim)),
    )
}

/// The nearer root of the sphere quadratic.
pub open spec fn sphere_root_near(ray: Ray, prim: Prim) -> int
    recommends
        sphere_a(ray) > 0,
        sphere_disc(ray, prim) >= 0,
{
    fx_div_s(
        fx_sub_s(fx_neg_s(sphere_half_b(ray, prim)), fx_sqrt_s(sphere_disc(ray, prim))),
        sphere_a(ray),
    )
}

/// The farther root of the sphere quadratic.
pub open spec fn sphere_root_far(ray: Ray, prim: Prim) -> int
    recommends
        sphere_a(ray) > 0,
        sphere_disc(ray, prim) >= 0,
{
    fx_div_s(
        fx_add_s(fx_neg_s(sphere_half_b(ray, prim)), fx_sqrt_s(sphere_disc(ray, prim))),
        sphere_a(ray),
    )
}

/// The ray intersects the primitive within the interval: positive radius,
/// non-degenerate direction, real roots, and a root inside the interval.
pub open spec fn sphere_hits(ray: Ray, prim: Prim, itv: Interval) -> bool {
    &&& prim.radius_s() > 0
    &&& sphere_a(ray) > 0
    &&& sphere_disc(ray, prim) >= 0
    &&& (itv.surrounds_s(sphere_root_near(ray, prim)) || itv.surrounds_s(
        sphere_root_far(ray, prim),
    ))
}

/// The chosen ray parameter: the near root when it lies inside the
/// interval, otherwise the far root (the ray starts inside the sphere).
pub open spec fn sphere_t(ray: Ray, prim: Prim, itv: Interval) -> int
    recommends
        sphere_hits(ray, prim, itv),
{
    if itv.surrounds_s(sphere_root_near(ray, prim)) {
        sphere_root_near(ray, prim)
    } else {
        sphere_root_far(ray, prim)
    }
}

/// The hit position: the ray evaluated at the chosen parameter.
pub open spec fn sphere_point(ray: Ray, prim: Prim, itv: Interval) -> (int, int, int)
    recommends
        sphere_hits(ray, prim, itv),
{
    vadd_s(ray.pos@, vscale_s(ray.dir@, sphere_t(ray, prim, itv)))
}

/// The outward surface normal: the offset from the centre over the radius.
pub open spec fn sphere_normal_raw(ray: Ray, prim: Prim, itv: Interval) -> (int, int, int)
    recommends
        sphere_hits(ray, prim, itv),
{
    vdiv_s(vsub_s(sphere_point(ray, prim, itv), prim.center_s()), prim.radius_s())
}

/// The oriented surface normal: flipped against the incoming ray, so that
/// it always points toward the ray origin's side of the surface.
pub open spec fn sphere_normal(ray: Ray, prim: Prim, itv: Interval) -> (int, int, int)
    recommends
        sphere_hits(ray, prim, itv),
{
    if dot_s(sphere_normal_raw(ray, prim, itv), ray.dir@) >= 0 {
        vneg_s(sphere_normal_raw(ray, prim, itv))
    } else {
        sphere_normal_raw(ray, prim, itv)
    }
}

/// Checks the ray-to-object intersection: the nearest valid hit of the ray
/// against the primitive, if any. Degenerate geometry (non-positive radius,
/// near-zero direction, negative discriminant) is a miss, never an error.
pub fn hit_object_with_ray(ray: Ray, prim: &Prim, interval: Interval, bounce_depth: u32) -> (r:
    Option<HitResult>)
    ensures
        r is Some <==> sphere_hits(ray, *prim, interval),
        r matches Some(h) ==> {
            &&& h.t as int == sphere_t(ray, *prim, interval)
            &&& h.pos@ == sphere_point(ray, *prim, interval)
            &&& h.normal@ == sphere_normal(ray, *prim, interval)
            &&& h.bounce == bounce_depth
            &&& h.original_ray == ray
            &&& interval.surrounds_s(h.t as int)
            &&& dot_s(h.normal@, ray.dir@) <= 0
        },
{
    match *prim {
        Prim::Sphere { pos: center, radius } => {
            if radius <= 0 {
                return None;
            }
            let a = ray.dir.length_squared();
            if a <= 0 {
                return None;
            }
            let oc = ray.pos.sub(center);
            let half_b = oc.dot(ray.dir);
            let c = fx_sub(oc.length_squared(), fx_mul(radius, radius));
            let discriminant = fx_sub(fx_mul(half_b, half_b), fx_mul(a, c));
            if discriminant < 0 {
                return None;
            }
            let sqrt_d = fx_sqrt(discriminant);
            let minus_half_b = fx_neg(half_b);
            let t_near = fx_div(fx_sub(minus_half_b, sqrt_d), a);
            let t_far = fx_div(fx_add(minus_half_b, sqrt_d), a);
            let t = if interval.surrounds(t_near) {
                t_near
            } else if interval.surrounds(t_far) {
                t_far
            } else {
                return None;
            };
            let hit_pos = ray.pos.add(ray.dir.scale(t));
            let normal_raw = hit_pos.sub(center).div_by(radius);
            let d0 = normal_raw.dot(ray.dir);
            let normal = if d0 >= 0 {
                proof {
                    lemma_dot_neg(normal_raw@, ray.dir@);
                }
                normal_raw.neg()
            } else {
                normal_raw
            };
            Some(
                HitResult {
                    normal,
                    pos: hit_pos,
                    t,
                    bounce: bounce_depth,
                    original_ray: ray,
                },
            )
        },
    }
}

/// The interval of valid scene intersections: from just above zero out to
/// the representable horizon.
pub open spec fn scene_hit_interval() -> Interval {
    (Interval { min: HIT_EPS, max: FX_MAX })
}

/// The ray misses every primitive of the scene.
pub open spec fn scene_misses_s(ray: Ray, scene: Seq<SceneNode>) -> bool {
    forall|i: int|
        0 <= i < scene.len() ==> !sphere_hits(ray, (#[trigger] scene[i]).0, scene_hit_interval())
}

/// `h` and `m` are the hit record and material of the scene node at `i`.
pub open spec fn is_scene_hit_at(
    ray: Ray,
    scene: Seq<SceneNode>,
    i: int,
    h: HitResult,
    m: Material,
) -> bool {
    &&& 0 <= i < scene.len()
    &&& sphere_hits(ray, scene[i].0, scene_hit_interval())
    &&& h.t as int == sphere_t(ray, scene[i].0, scene_hit_interval())
    &&& h.pos@ == sphere_point(ray, scene[i].0, scene_hit_interval())
    &&& h.normal@ == sphere_normal(ray, scene[i].0, scene_hit_interval())
    &&& m == scene[i].1
}

/// Finds the closest object hit by the ray: scans every node and keeps the
/// hit with the least ray parameter.
pub fn find_closest_hit(ray: Ray, scene: &Scene, bounce_depth: u32) -> (r: Option<
    (HitResult, Material),
>)
    ensures
        r is Some <==> !scene_misses_s(ray, scene@),
        r matches Some((h, m)) ==> {
            &&& exists|i: int| is_scene_hit_at(ray, scene@, i, h, m)
            &&& forall|j: int|
                0 <= j < scene@.len() && sphere_hits(
                    ray,
                    (#[trigger] scene@[j]).0,
                    scene_hit_interval(),
                ) ==> h.t as int <= sphere_t(ray, scene@[j].0, scene_hit_interval())
            &&& h.bounce == bounce_depth
            &&& h.original_ray == ray
            &&& dot_s(h.normal@, ray.dir@) <= 0
            &&& scene_hit_interval().surrounds_s(h.t as int)
        },
{
    let nodes = scene.iter();
    let n = nodes.len();
    let mut best: Option<(HitResult, Material)> = None;
    let mut k: usize = 0;
    while k < n
        invariant
            k <= n,
            n == scene@.len(),
            nodes@ == scene@,
            best is None ==> forall|j: int|
                0 <= j < k as int ==> !sphere_hits(
                    ray,
                    (#[trigger] scene@[j]).0,
                    scene_hit_interval(),
                ),
            best matches Some((h, m)) ==> {
                &&& exists|i: int| is_scene_hit_at(ray, scene@, i, h, m)
                &&& forall|j: int|
                    0 <= j < k as int && sphere_hits(
                        ray,
                        (#[trigger] scene@[j]).0,
                        scene_hit_interval(),
                    ) ==> h.t as int <= sphere_t(ray, scene@[j].0, scene_hit_interval())
                &&& h.bounce == bounce_depth
                &&& h.original_ray == ray
                &&& dot_s(h.normal@, ray.dir@) <= 0
                &&& scene_hit_interval().surrounds_s(h.t as int)
            },
        decreases n - k,
    {
        let node = nodes[k];
        let interval = Interval::new(HIT_EPS, FX_MAX);
        let candidate = hit_object_with_ray(ray, &node.0, interval, bounce_depth);
        match candidate {
            Some(h) => {
                let replace = match &best {
                    None => true,
                    Some((bh, _)) => h.t < bh.t,
                };
                if replace {
                    best = Some((h, node.1));
                    proof {
                        assert(is_scene_hit_at(ray, scene@, k as int, h, node.1));
                    }
                }
            },
            None => {},
        }
        k = k + 1;
    }
    best
}

/// One bounce less of budget.
pub open spec fn prev_depth(depth: u32) -> u32
    recommends
        depth >= 1,
{
    (depth - 1) as u32
}

/// `c` is a radiance value the light-transport recursion may return for
/// this ray, scene and bounce budget: the background on a miss, black when
/// the budget is exhausted, and otherwise the albedo of a hit node
/// attenuating an admissible recursive radiance of a ray scattered from
/// that node's surface. Kept opaque: the lemmas below fold one case each.
#[verifier::opaque]
pub open spec fn radiance_admissible(
    ray: Ray,
    scene: Seq<SceneNode>,
    depth: u32,
    c: (int, int, int),
) -> bool
    decreases depth,
{
    if scene_misses_s(ray, scene) {
        c == background_s()
    } else if depth == 0 {
        c == black_s()
    } else {
        exists|i: int, sray: Ray, rec: (int, int, int)|
            #![trigger scene[i], sray.pos, color_in_unit(rec)]
            {
                &&& 0 <= i < scene.len()
                &&& sphere_hits(ray, scene[i].0, scene_hit_interval())
                &&& sray.pos@ == sphere_point(ray, scene[i].0, scene_hit_interval())
                &&& scatter_dir_admissible(
                    scene[i].1,
                    ray.dir@,
                    sphere_normal(ray, scene[i].0, scene_hit_interval()),
                    sray.dir@,
                )
                &&& radiance_admissible(sray, scene, prev_depth(depth), rec)
                &&& color_in_unit(rec)
                &&& c == vhad_s(scene[i].1.albedo_s(), rec)
            }
    }
}

/// A ray that misses the whole scene has exactly the background as its
/// admissible radiance.
proof fn lemma_radiance_miss(ray: Ray, scene: Seq<SceneNode>, depth: u32)
    requires
        scene_misses_s(ray, scene),
    ensures
        radiance_admissible(ray, scene, depth, background_s()),
{
    reveal_with_fuel(radiance_admissible, 1);
}

/// A hit with an exhausted bounce budget absorbs to black.
proof fn lemma_radiance_absorbed(ray: Ray, scene: Seq<SceneNode>)
    requires
        !scene_misses_s(ray, scene),
    ensures
        radiance_admissible(ray, scene, 0, black_s()),
{
    reveal_with_fuel(radiance_admissible, 1);
}

/// Folds one scatter step into the admissibility predicate: a hit on node
/// `i`, an admissible scattered ray and an admissible recursive radiance
/// make the attenuated product admissible at the next depth up.
#[verifier::rlimit(100)]
#[verifier::spinoff_prover]
proof fn lemma_radiance_step(
    ray: Ray,
    scene: Seq<SceneNode>,
    depth: u32,
    i: int,
    sray: Ray,
    rec: (int, int, int),
    c: (int, int, int),
)
    requires
        !scene_misses_s(ray, scene),
        depth > 0,
        0 <= i < scene.len(),
        sphere_hits(ray, scene[i].0, scene_hit_interval()),
        sray.pos@ == sphere_point(ray, scene[i].0, scene_hit_interval()),
        scatter_dir_admissible(
            scene[i].1,
            ray.dir@,
            sphere_normal(ray, scene[i].0, scene_hit_interval()),
            sray.dir@,
        ),
        radiance_admissible(sray, scene, prev_depth(depth), rec),
        color_in_unit(rec),
        c == vhad_s(scene[i].1.albedo_s(), rec),
    ensures
        radiance_admissible(ray, scene, depth, c),
{
    reveal_with_fuel(radiance_admissible, 1);
    assert(exists|i2: int, sray2: Ray, rec2: (int, int, int)|
        #![trigger scene[i2], sray2.pos, color_in_unit(rec2)]
        {
            &&& 0 <= i2 < scene.len()
            &&& sphere_hits(ray, scene[i2].0, scene_hit_interval())
            &&& sray2.pos@ == sphere_point(ray, scene[i2].0, scene_hit_interval())
            &&& scatter_dir_admissible(
                scene[i2].1,
                ray.dir@,
                sphere_normal(ray, scene[i2].0, scene_hit_interval()),
                sray2.dir@,
            )
            &&& radiance_admissible(sray2, scene, prev_depth(depth), rec2)
            &&& color_in_unit(rec2)
            &&& c == vhad_s(scene[i2].1.albedo_s(), rec2)
        });
}

/// Returns the pixel colour from the material based on the hit; might
/// scatter further rays. With an exhausted bounce budget the colour is
/// black, whatever the scene holds; otherwise the colour is the albedo
/// attenuating an admissible recursive radiance, which it never exceeds
/// (no energy is invented), and a metal hit whose mirror ray misses the
/// whole scene returns exactly the attenuated background.
pub fn get_ray_color(mat: &Material, hit: HitResult, scene: &Scene) -> (r: Vec3)
    requires
        scene.wf(),
        mat.wf(),
    ensures
        hit.bounce == 0 ==> r@ == black_s(),
        color_in_unit(r@),
        hit.bounce > 0 ==> exists|sray: Ray, rec: (int, int, int)|
            {
                &&& sray.pos == hit.pos
                &&& scatter_dir_admissible(*mat, hit.original_ray.dir@, hit.normal@, sray.dir@)
                &&& #[trigger] radiance_admissible(sray, scene@, prev_depth(hit.bounce), rec)
                &&& color_in_unit(rec)
                &&& r@ == vhad_s(mat.albedo_s(), rec)
                &&& r@.0 <= rec.0
                &&& r@.1 <= rec.1
                &&& r@.2 <= rec.2
            },
        hit.bounce > 0 && *mat is Metal && (forall|sray: Ray|
            sray.pos == hit.pos && sray.dir@ == reflect_dir_s(
                hit.original_ray.dir@,
                hit.normal@,
            ) ==> #[trigger] scene_misses_s(sray, scene@)) ==> r@ == vhad_s(
            mat.albedo_s(),
            background_s(),
        ),
    decreases hit.bounce, 0int,
{
    if hit.bounce == 0 {
        return Vec3::zero();
    }
    match mat.scatter(&hit) {
        None => Vec3::zero(),
        Some((scattered, albedo)) => {
            let rec = hit_scene_with_ray(scattered, scene, hit.bounce - 1);
            let out = albedo.hadamard(rec);
            proof {
                lemma_energy_non_amplification(albedo@, rec@);
                assert(radiance_admissible(scattered, scene@, prev_depth(hit.bounce), rec@));
                if (*mat) is Metal && (forall|sray: Ray|
                    sray.pos == hit.pos && sray.dir@ == reflect_dir_s(
                        hit.original_ray.dir@,
                        hit.normal@,
                    ) ==> #[trigger] scene_misses_s(sray, scene@)) {
                    assert(scattered.dir@ == reflect_dir_s(
                        hit.original_ray.dir@,
                        hit.normal@,
                    ));
                    assert(scene_misses_s(scattered, scene@));
                    assert(rec@ == background_s());
                }
            }
            out
        },
    }
}

/// Naively tries to hit every object in the scene, returning the scattered
/// colour of the nearest hit or the background on a miss. `bounce_depth` is
/// the number of scatters still allowed.
pub fn hit_scene_with_ray(ray: Ray, scene: &Scene, bounce_depth: u32) -> (r: Vec3)
    requires
        scene.wf(),
    ensures
        scene_misses_s(ray, scene@) ==> r@ == background_s(),
        !scene_misses_s(ray, scene@) && bounce_depth == 0 ==> r@ == black_s(),
        color_in_unit(r@),
        radiance_admissible(ray, scene@, bounce_depth, r@),
    decreases bounce_depth, 1int,
{
    match find_closest_hit(ray, scene, bounce_depth) {
        Some((hit, mat)) => {
            proof {
                let i = choose|i: int| is_scene_hit_at(ray, scene@, i, hit, mat);
                assert(scene@[i].1.wf());
            }
            let out = get_ray_color(&mat, hit, scene);
            proof {
                let i = choose|i: int| is_scene_hit_at(ray, scene@, i, hit, mat);
                if bounce_depth == 0 {
                    lemma_radiance_absorbed(ray, scene@);
                } else {
                    let (sray, rec) = choose|sray: Ray, rec: (int, int, int)|
                        {
                            &&& sray.pos == hit.pos
                            &&& scatter_dir_admissible(
                                mat,
                                hit.original_ray.dir@,
                                hit.normal@,
                                sray.dir@,
                            )
                            &&& #[trigger] radiance_admissible(
                                sray,
                                scene@,
                                prev_depth(hit.bounce),
                                rec,
                            )
                            &&& color_in_unit(rec)
                            &&& out@ == vhad_s(mat.albedo_s(), rec)
                            &&& out@.0 <= rec.0
                            &&& out@.1 <= rec.1
                            &&& out@.2 <= rec.2
                        };
                    lemma_radiance_step(ray, scene@, bounce_depth, i, sray, rec, out@);
                }
            }
            out
        },
        None => {
            proof {
                lemma_radiance_miss(ray, scene@, bounce_depth);
            }
            background_color()
        },
    }
}

/// The pixel is the gamma-corrected, fully opaque packing of some colour
/// with every channel in `[0, 1]`: what per-pixel sampling produces.
pub open spec fn is_rendered_pixel(p: u32) -> bool {
    exists|c: (int, int, int)|
        color_in_unit(c) && p as int == with_alpha_s(
            (gamma_s(c.0), gamma_s(c.1), gamma_s(c.2)),
            FX_ONE as int,
        )
}

/// Every rendered pixel is fully opaque: its alpha byte is 255.
pub proof fn lemma_rendered_pixel_opaque(p: u32)
    requires
        is_rendered_pixel(p),
    ensures
        p as int / 0x100_0000 == 255,
{
    let c = choose|c: (int, int, int)|
        color_in_unit(c) && p as int == with_alpha_s(
            (gamma_s(c.0), gamma_s(c.1), gamma_s(c.2)),
            FX_ONE as int,
        );
    crate::color::lemma_with_alpha_opaque((gamma_s(c.0), gamma_s(c.1), gamma_s(c.2)));
}

/// The saturating channel-wise sum of a sequence of radiance samples.
pub open spec fn acc_sum_s(samples: Seq<(int, int, int)>) -> (int, int, int)
    decreases samples.len(),
{
    if samples.len() == 0 {
        (0int, 0int, 0int)
    } else {
        vadd_s(acc_sum_s(samples.drop_last()), samples.last())
    }
}

/// `c` is a radiance estimate one camera sample of pixel `(x, y)` may
/// produce: the admissible radiance of a ray cast through the pixel,
/// jittered by up to half a pixel in each direction, under the camera's
/// bounce budget.
pub open spec fn sample_admissible(
    camera: Camera,
    scene: Seq<SceneNode>,
    x: int,
    y: int,
    c: (int, int, int),
) -> bool {
    exists|jx: int, jy: int, sray: Ray|
        #![trigger sray.pos, camera.ray_dir_s(x, y, jx, jy)]
        {
            &&& -((FX_ONE as int) / 2) <= jx <= (FX_ONE as int) / 2
            &&& -((FX_ONE as int) / 2) <= jy <= (FX_ONE as int) / 2
            &&& sray.pos == camera.pos
            &&& sray.dir@ == camera.ray_dir_s(x, y, jx, jy)
            &&& radiance_admissible(sray, scene, camera.bounce_depth, c)
        }
}

/// `p` is a pixel value per-pixel sampling may produce for pixel `(x, y)`:
/// the fully opaque packing of the gamma-corrected mean of `n` admissible
/// samples of that pixel, each with channels in `[0, 1]`.
pub open spec fn pixel_admissible(
    camera: Camera,
    scene: Seq<SceneNode>,
    x: int,
    y: int,
    n: u32,
    p: u32,
) -> bool {
    exists|samples: Seq<(int, int, int)>|
        #![trigger acc_sum_s(samples)]
        {
            &&& samples.len() == n
            &&& forall|k: int|
                0 <= k < samples.len() ==> sample_admissible(
                    camera,
                    scene,
                    x,
                    y,
                    #[trigger] samples[k],
                )
            &&& forall|k: int| 0 <= k < samples.len() ==> color_in_unit(#[trigger] samples[k])
            &&& p as int == with_alpha_s(
                (
                    gamma_s(tdiv(acc_sum_s(samples).0, n as int)),
                    gamma_s(tdiv(acc_sum_s(samples).1, n as int)),
                    gamma_s(tdiv(acc_sum_s(samples).2, n as int)),
                ),
                FX_ONE as int,
            )
        }
}

/// Pixel `(x, y)` of a row-major pixel grid holds an admissible rendering
/// of that pixel.
pub open spec fn rendered_pixel_at(
    camera: Camera,
    scene: Seq<SceneNode>,
    n: u32,
    fbv: Seq<u32>,
    width: int,
    x: int,
    y: int,
) -> bool {
    pixel_admissible(camera, scene, x, y, n, fbv[y * width + x])
}

/// One pixel of the image, by non-adaptive Monte Carlo: the arithmetic mean
/// of `number_of_samples` jittered radiance estimates, gamma-corrected and
/// packed fully opaque.
pub fn pixel_color(camera: &Camera, scene: &Scene, x: u32, y: u32, number_of_samples: u32) -> (r:
    u32)
    requires
        camera.wf(),
        scene.wf(),
        number_of_samples >= 1,
        x < camera.width,
        y < camera.height,
    ensures
        is_rendered_pixel(r),
        pixel_admissible(*camera, scene@, x as int, y as int, number_of_samples, r),
{
    let mut acc = Vec3::zero();
    let mut s: u32 = 0;
    let ghost mut samples: Seq<(int, int, int)> = Seq::empty();
    while s < number_of_samples
        invariant
            s <= number_of_samples,
            camera.wf(),
            scene.wf(),
            x < camera.width,
            y < camera.height,
            0 <= acc.x as int <= (s as int) * (FX_ONE as int),
            0 <= acc.y as int <= (s as int) * (FX_ONE as int),
            0 <= acc.z as int <= (s as int) * (FX_ONE as int),
            samples.len() == s as int,
            acc@ == acc_sum_s(samples),
            forall|k: int|
                0 <= k < samples.len() ==> sample_admissible(
                    *camera,
                    scene@,
                    x as int,
                    y as int,
                    #[trigger] samples[k],
                ),
            forall|k: int| 0 <= k < samples.len() ==> color_in_unit(#[trigger] samples[k]),
        decreases number_of_samples - s,
    {
        let ray = camera.get_ray(x, y, FX_ONE);
        let c = hit_scene_with_ray(ray, scene, camera.bounce_depth);
        acc = acc.add(c);
        proof {
            let (jx, jy) = choose|jx: int, jy: int|
                {
                    &&& -tdiv(FX_ONE as int, 2) <= jx <= tdiv(FX_ONE as int, 2)
                    &&& -tdiv(FX_ONE as int, 2) <= jy <= tdiv(FX_ONE as int, 2)
                    &&& ray.dir@ == camera.ray_dir_s(x as int, y as int, jx, jy)
                };
            assert(sample_admissible(*camera, scene@, x as int, y as int, c@));
            let prev = samples;
            samples = samples.push(c@);
            assert(samples.drop_last() =~= prev);
            assert(samples.last() == c@);
        }
        s = s + 1;
    }
    let n: i64 = number_of_samples as i64;
    let avg = Vec3 { x: fx_idiv(acc.x, n), y: fx_idiv(acc.y, n), z: fx_idiv(acc.z, n) };
    proof {
        lemma_avg_in_unit(acc.x as int, n as int);
        lemma_avg_in_unit(acc.y as int, n as int);
        lemma_avg_in_unit(acc.z as int, n as int);
    }
    let g = crate::color::linear_to_gamma(avg);
    let r = g.with_alpha(FX_ONE);
    proof {
        assert(color_in_unit(avg@) && r as int == with_alpha_s(
            (gamma_s(avg@.0), gamma_s(avg@.1), gamma_s(avg@.2)),
            FX_ONE as int,
        ));
        assert(avg@.0 == tdiv(acc_sum_s(samples).0, number_of_samples as int));
        assert(pixel_admissible(
            *camera,
            scene@,
            x as int,
            y as int,
            number_of_samples,
            r,
        ));
    }
    r
}

/// An average of values in `[0, n]` fixed-point units lies in `[0, 1]`.
proof fn lemma_avg_in_unit(acc: int, n: int)
    requires
        n >= 1,
        0 <= acc <= n * (FX_ONE as int),
    ensures
        0 <= tdiv(acc, n) <= FX_ONE as int,
{
    vstd::arithmetic::div_mod::lemma_div_pos_is_pos(acc, n);
    vstd::arithmetic::div_mod::lemma_div_is_ordered(acc, n * (FX_ONE as int), n);
    vstd::arithmetic::div_mod::lemma_div_multiples_vanish(FX_ONE as int, n);
}

/// A renderer: renders a scene, and exposes the resulting framebuffer.
pub trait Renderer {
    /// The renderer is ready to render.
    spec fn wf(&self) -> bool;

    /// Renders the scene.
    fn render(&mut self, scene: &Scene)
        requires
            old(self).wf(),
            scene.wf(),
        ensures
            final(self).wf(),
    ;

    /// The rendered image.
    fn framebuffer(&self) -> (r: Framebuffer)
        requires
            self.wf(),
        ensures
            r.wf(),
    ;
}

} // verus!
