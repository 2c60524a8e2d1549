use rusty_rays::camera::Camera;
use rusty_rays::fixed::FX_ONE;
use rusty_rays::vec3::{vec3, Vec3};

fn test_camera() -> Camera {
    Camera::new(16, 16, 50, 0, Vec3::zero(), vec3(0, 0, -FX_ONE))
}

#[test]
fn camera_records_configuration() {
    let camera = test_camera();
    assert_eq!(camera.width, 16);
    assert_eq!(camera.height, 16);
    assert_eq!(camera.bounce_depth, 50);
    assert_eq!(camera.pos, Vec3::zero());
}

#[test]
fn center_ray_without_jitter_is_exact() {
    let camera = test_camera();
    let ray = camera.get_ray(8, 8, 0);
    assert_eq!(ray.pos, Vec3::zero());
    assert_eq!(ray.dir, vec3(0, 0, -FX_ONE));
}

#[test]
fn corner_ray_without_jitter_is_exact() {
    // Pixel (0, 0) sits half the image above and left of centre; with a
    // viewport one unit high at one unit of focal distance, the sample
    // point is (0.5, 0.5, -1), and the direction is its normalisation.
    let camera = test_camera();
    let ray = camera.get_ray(0, 0, 0);
    assert_eq!(ray.dir, vec3(26755, 26755, -53510));
}

#[test]
fn zero_jitter_is_deterministic() {
    let camera = test_camera();
    let a = camera.get_ray(3, 12, 0);
    let b = camera.get_ray(3, 12, 0);
    assert_eq!(a.dir, b.dir);
    assert_eq!(a.pos, b.pos);
}

#[test]
fn ray_directions_are_nearly_unit() {
    let camera = test_camera();
    for x in 0..16 {
        for y in 0..16 {
            let ray = camera.get_ray(x, y, FX_ONE);
            let lsq = ray.dir.length_squared();
            // Fixed-point normalisation truncates: the squared length may
            // fall a little short of one, never above it.
            assert!(lsq <= FX_ONE + 64, "lsq {} too large", lsq);
            assert!(lsq >= FX_ONE - 64, "lsq {} too small", lsq);
        }
    }
}
