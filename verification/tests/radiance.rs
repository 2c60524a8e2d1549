use rusty_rays::camera::Camera;
use rusty_rays::fixed::{FX_MAX, FX_ONE};
use rusty_rays::interval::Interval;
use rusty_rays::ray::Ray;
use rusty_rays::renderer::kernel::{
    background_color, get_ray_color, hit_object_with_ray, hit_scene_with_ray, pixel_color,
    HIT_EPS,
};
use rusty_rays::scene_graph::{Diffuse, Material, Metal, Prim, Scene};
use rusty_rays::vec3::{vec3, Vec3};

fn one_sphere_scene(material: Material) -> Scene {
    let mut scene = Scene::new();
    scene.add(
        Prim::Sphere { pos: vec3(0, 0, -3 * FX_ONE), radius: FX_ONE },
        material,
    );
    scene
}

fn head_on_ray() -> Ray {
    Ray { pos: Vec3::zero(), dir: vec3(0, 0, -FX_ONE) }
}

#[test]
fn background_value() {
    let bg = background_color();
    assert_eq!(bg, vec3(26214, 39321, 55705));
}

#[test]
fn miss_returns_exact_background() {
    let scene = Scene::new();
    let c = hit_scene_with_ray(head_on_ray(), &scene, 50);
    assert_eq!(c, background_color());

    let scene = one_sphere_scene(Material::Diffuse(Diffuse {
        albedo: vec3(FX_ONE, 0, 0),
    }));
    let away = Ray { pos: Vec3::zero(), dir: vec3(0, 0, FX_ONE) };
    let c = hit_scene_with_ray(away, &scene, 50);
    assert_eq!(c, background_color());
}

#[test]
fn exhausted_bounce_budget_is_black() {
    let scene = one_sphere_scene(Material::Diffuse(Diffuse {
        albedo: vec3(FX_ONE, FX_ONE, FX_ONE),
    }));
    let c = hit_scene_with_ray(head_on_ray(), &scene, 0);
    assert_eq!(c, Vec3::zero());
}

#[test]
fn scatter_continuation_at_zero_bounces_is_black() {
    let mat = Material::Metal(Metal { albedo: vec3(FX_ONE, FX_ONE, FX_ONE) });
    let scene = one_sphere_scene(mat);
    let prim = Prim::Sphere { pos: vec3(0, 0, -3 * FX_ONE), radius: FX_ONE };
    let itv = Interval::new(HIT_EPS, FX_MAX);
    let hit = hit_object_with_ray(head_on_ray(), &prim, itv, 0).unwrap();
    let c = get_ray_color(&mat, hit, &scene);
    assert_eq!(c, Vec3::zero());
}

#[test]
fn mirror_bounce_returns_attenuated_background() {
    // A head-on hit on a metal sphere reflects straight back, misses
    // everything, and returns the background attenuated by a full albedo:
    // exactly the background.
    let scene = one_sphere_scene(Material::Metal(Metal {
        albedo: vec3(FX_ONE, FX_ONE, FX_ONE),
    }));
    let c = hit_scene_with_ray(head_on_ray(), &scene, 3);
    assert_eq!(c, background_color());
}

#[test]
fn mirror_bounce_respects_albedo() {
    // Same geometry, but the metal reflects only half of each channel.
    let half = FX_ONE / 2;
    let scene = one_sphere_scene(Material::Metal(Metal {
        albedo: vec3(half, half, half),
    }));
    let c = hit_scene_with_ray(head_on_ray(), &scene, 3);
    assert_eq!(c, vec3(26214 / 2, 39321 / 2, 55705 / 2));
}

#[test]
fn radiance_never_amplifies_energy() {
    // A diffuse albedo with a zero blue channel absorbs blue entirely;
    // every channel stays within [0, 1], whatever the random scatter did.
    let scene = one_sphere_scene(Material::Diffuse(Diffuse {
        albedo: vec3(FX_ONE, FX_ONE / 2, 0),
    }));
    for _ in 0..20 {
        let c = hit_scene_with_ray(head_on_ray(), &scene, 8);
        assert!(0 <= c.x && c.x <= FX_ONE);
        assert!(0 <= c.y && c.y <= FX_ONE);
        assert_eq!(c.z, 0);
    }
}

#[test]
fn center_pixel_black_and_corner_pixel_background() {
    // A diffuse sphere of radius one half, one unit straight ahead; the
    // camera looks down -z with no bounce budget. The centre pixel hits and
    // absorbs to black; a corner pixel misses and shows the exact
    // background, with zero variance across samples.
    let camera = Camera::new(16, 16, 0, 0, Vec3::zero(), vec3(0, 0, -FX_ONE));
    let mut scene = Scene::new();
    scene.add(
        Prim::Sphere { pos: vec3(0, 0, -FX_ONE), radius: FX_ONE / 2 },
        Material::Diffuse(Diffuse { albedo: vec3(FX_ONE, FX_ONE, FX_ONE) }),
    );
    let center = pixel_color(&camera, &scene, 8, 8, 1);
    assert_eq!(center, 0xFF000000);
    for _ in 0..10 {
        let corner = pixel_color(&camera, &scene, 0, 0, 4);
        assert_eq!(corner, 0xFFA1C5EB);
    }
}
