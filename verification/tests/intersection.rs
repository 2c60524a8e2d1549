use rusty_rays::fixed::{FX_MAX, FX_ONE};
use rusty_rays::interval::Interval;
use rusty_rays::ray::Ray;
use rusty_rays::renderer::kernel::{find_closest_hit, hit_object_with_ray, HIT_EPS};
use rusty_rays::scene_graph::{Diffuse, Material, Prim, Scene};
use rusty_rays::vec3::{vec3, Vec3};

fn full_interval() -> Interval {
    Interval::new(HIT_EPS, FX_MAX)
}

#[test]
fn head_on_hit_matches_analytic_root() {
    // Origin at 0, aiming down -z at a unit sphere centred three units
    // away: the analytic near root is t = 2.
    let ray = Ray { pos: Vec3::zero(), dir: vec3(0, 0, -FX_ONE) };
    let prim = Prim::Sphere { pos: vec3(0, 0, -3 * FX_ONE), radius: FX_ONE };
    let hit = hit_object_with_ray(ray, &prim, full_interval(), 9).unwrap();
    assert_eq!(hit.t, 2 * FX_ONE);
    assert_eq!(hit.pos, vec3(0, 0, -2 * FX_ONE));
    // The normal is unit length and points back toward the ray origin.
    assert_eq!(hit.normal, vec3(0, 0, FX_ONE));
    assert_eq!(hit.normal.length_squared(), FX_ONE);
    assert!(hit.normal.dot(ray.dir) <= 0);
    assert_eq!(hit.bounce, 9);
}

#[test]
fn ray_aimed_away_misses() {
    let ray = Ray { pos: Vec3::zero(), dir: vec3(0, 0, FX_ONE) };
    let prim = Prim::Sphere { pos: vec3(0, 0, -3 * FX_ONE), radius: FX_ONE };
    assert!(hit_object_with_ray(ray, &prim, full_interval(), 0).is_none());
}

#[test]
fn origin_inside_sphere_takes_far_root_and_flips_normal() {
    let ray = Ray { pos: Vec3::zero(), dir: vec3(0, 0, FX_ONE) };
    let prim = Prim::Sphere { pos: Vec3::zero(), radius: FX_ONE };
    let hit = hit_object_with_ray(ray, &prim, full_interval(), 0).unwrap();
    // The near root is behind the origin; the far root is t = 1.
    assert_eq!(hit.t, FX_ONE);
    // The outward normal points along the ray, so it is flipped back.
    assert_eq!(hit.normal, vec3(0, 0, -FX_ONE));
    assert!(hit.normal.dot(ray.dir) <= 0);
}

#[test]
fn degenerate_geometry_is_a_miss() {
    let ray = Ray { pos: Vec3::zero(), dir: vec3(0, 0, -FX_ONE) };
    let flat = Prim::Sphere { pos: vec3(0, 0, -3 * FX_ONE), radius: 0 };
    assert!(hit_object_with_ray(ray, &flat, full_interval(), 0).is_none());

    let inverted = Prim::Sphere { pos: vec3(0, 0, -3 * FX_ONE), radius: -FX_ONE };
    assert!(hit_object_with_ray(ray, &inverted, full_interval(), 0).is_none());

    let still = Ray { pos: Vec3::zero(), dir: Vec3::zero() };
    let prim = Prim::Sphere { pos: vec3(0, 0, -3 * FX_ONE), radius: FX_ONE };
    assert!(hit_object_with_ray(still, &prim, full_interval(), 0).is_none());
}

#[test]
fn closest_hit_takes_minimum_distance() {
    let mut scene = Scene::new();
    let albedo = vec3(FX_ONE, FX_ONE, FX_ONE);
    let far = Prim::Sphere { pos: vec3(0, 0, -9 * FX_ONE), radius: FX_ONE };
    let near = Prim::Sphere { pos: vec3(0, 0, -3 * FX_ONE), radius: FX_ONE };
    scene.add(far, Material::Diffuse(Diffuse { albedo }));
    scene.add(near, Material::Diffuse(Diffuse { albedo }));
    let ray = Ray { pos: Vec3::zero(), dir: vec3(0, 0, -FX_ONE) };
    let (hit, _mat) = find_closest_hit(ray, &scene, 4).unwrap();
    assert_eq!(hit.t, 2 * FX_ONE);
    assert_eq!(hit.bounce, 4);
}

#[test]
fn closest_hit_none_on_empty_scene() {
    let scene = Scene::new();
    let ray = Ray { pos: Vec3::zero(), dir: vec3(0, 0, -FX_ONE) };
    assert!(find_closest_hit(ray, &scene, 0).is_none());
}
