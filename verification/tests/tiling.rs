use rusty_rays::camera::Camera;
use rusty_rays::color::Framebuffer;
use rusty_rays::fixed::FX_ONE;
use rusty_rays::renderer::kernel::Renderer;
use rusty_rays::renderer::multi_threaded::{render_tile, ConfigError, MultiThreadedRenderer};
use rusty_rays::renderer::simple_renderer::SimpleRenderer;
use rusty_rays::renderer::single_threaded::SingleThreadedRenderer;
use rusty_rays::scene_graph::{Metal, Material, Prim, Scene};
use rusty_rays::vec3::{vec3, Vec3};

fn test_camera(width: u32, height: u32) -> Camera {
    Camera::new(width, height, 2, 0, Vec3::zero(), vec3(0, 0, -FX_ONE))
}

#[test]
fn indivisible_dimensions_are_rejected() {
    let camera = test_camera(100, 100);
    let r = MultiThreadedRenderer::new(camera, 1, 64);
    assert_eq!(r.err(), Some(ConfigError::IndivisibleTileSize));
}

#[test]
fn zero_tile_size_is_rejected() {
    let camera = test_camera(100, 100);
    let r = MultiThreadedRenderer::new(camera, 1, 0);
    assert_eq!(r.err(), Some(ConfigError::ZeroTileSize));
}

#[test]
fn divisible_dimensions_are_accepted() {
    let camera = test_camera(100, 100);
    assert!(MultiThreadedRenderer::new(camera, 1, 25).is_ok());
    assert!(MultiThreadedRenderer::new(camera, 1, 100).is_ok());
    assert!(MultiThreadedRenderer::new(camera, 1, 1).is_ok());
}

/// A synthetic tile whose every local pixel holds its global flat index.
fn indexed_tile(column: usize, row: usize, tile_size: usize, width: usize) -> Framebuffer {
    let mut tile = Framebuffer::new(tile_size, tile_size);
    for ly in 0..tile_size {
        for lx in 0..tile_size {
            let gx = column * tile_size + lx;
            let gy = row * tile_size + ly;
            tile.put_pixel(lx, ly, (gy * width + gx) as u32);
        }
    }
    tile
}

#[test]
fn compositor_is_inverse_of_decomposition() {
    let camera = test_camera(8, 8);
    let mut renderer = MultiThreadedRenderer::new(camera, 1, 4).unwrap();
    for row in 0..2 {
        for column in 0..2 {
            let tile = indexed_tile(column as usize, row as usize, 4, 8);
            renderer.set_tile(column, row, tile);
        }
    }
    let fb = renderer.framebuffer();
    for i in 0..64u32 {
        assert_eq!(fb.data()[i as usize], i);
    }
}

#[test]
fn single_tile_composites_to_identity() {
    let camera = test_camera(8, 8);
    let mut renderer = MultiThreadedRenderer::new(camera, 1, 8).unwrap();
    renderer.set_tile(0, 0, indexed_tile(0, 0, 8, 8));
    let fb = renderer.framebuffer();
    for i in 0..64u32 {
        assert_eq!(fb.data()[i as usize], i);
    }
}

#[test]
fn missing_tile_leaves_a_zero_gap() {
    let camera = test_camera(8, 8);
    let mut renderer = MultiThreadedRenderer::new(camera, 1, 4).unwrap();
    renderer.set_tile(0, 0, indexed_tile(0, 0, 4, 8));
    renderer.set_tile(1, 0, indexed_tile(1, 0, 4, 8));
    renderer.set_tile(0, 1, indexed_tile(0, 1, 4, 8));
    // Tile (1, 1) was never collected.
    let fb = renderer.framebuffer();
    for gy in 0..8usize {
        for gx in 0..8usize {
            let expected = if gx >= 4 && gy >= 4 { 0 } else { (gy * 8 + gx) as u32 };
            assert_eq!(fb.get_pixel(gx, gy), expected);
        }
    }
}

#[test]
fn rendered_tile_is_fully_opaque() {
    let camera = test_camera(8, 8);
    let scene = Scene::new();
    let tile = render_tile(1, 0, &scene, &camera, 4, 1);
    assert_eq!(tile.width(), 4);
    assert_eq!(tile.height(), 4);
    assert!(tile.data().iter().all(|&p| p >> 24 == 0xFF));
}

#[test]
fn all_renderers_agree_on_an_empty_scene() {
    // With nothing to hit, every sample of every pixel sees the exact
    // background: jitter has no influence, so the whole-image render and
    // the tiled render agree pixel for pixel.
    let camera = test_camera(8, 8);
    let scene = Scene::new();

    let mut single = SingleThreadedRenderer::new(camera, 2);
    single.render(&scene);
    let single_fb = single.framebuffer();

    let mut simple = SimpleRenderer::new(camera, 2);
    simple.render(&scene);
    let simple_fb = simple.framebuffer();

    let mut tiled = MultiThreadedRenderer::new(camera, 2, 4).unwrap();
    tiled.render(&scene);
    let tiled_fb = tiled.framebuffer();

    assert_eq!(single_fb.data(), simple_fb.data());
    assert_eq!(single_fb.data(), tiled_fb.data());
    assert!(single_fb.data().iter().all(|&p| p == 0xFFA1C5EB));
}

#[test]
fn tiled_render_of_a_metal_scene_is_complete_and_opaque() {
    let camera = test_camera(8, 8);
    let mut scene = Scene::new();
    scene.add(
        Prim::Sphere { pos: vec3(0, 0, -3 * FX_ONE), radius: FX_ONE },
        Material::Metal(Metal { albedo: vec3(FX_ONE / 2, FX_ONE / 2, FX_ONE / 2) }),
    );
    let mut renderer = MultiThreadedRenderer::new(camera, 1, 2).unwrap();
    renderer.render(&scene);
    let fb = renderer.framebuffer();
    assert_eq!(fb.data().len(), 64);
    assert!(fb.data().iter().all(|&p| p >> 24 == 0xFF));
}
