use rusty_rays::color::{channel_byte, linear_to_gamma, pack_argb, Color, Framebuffer};
use rusty_rays::fixed::FX_ONE;
use rusty_rays::vec3::vec3;

#[test]
fn vec3_to_u32_with_alpha() {
    let white = Color::with_alpha(vec3(FX_ONE, FX_ONE, FX_ONE), 0);
    assert_eq!(white, 0x00FFFFFF);

    let red = Color::with_alpha(vec3(FX_ONE, 0, 0), 0);
    assert_eq!(red, 0x00FF0000);

    let green = Color::with_alpha(vec3(0, FX_ONE, 0), 0);
    assert_eq!(green, 0x0000FF00);

    let blue = Color::with_alpha(vec3(0, 0, FX_ONE), 0);
    assert_eq!(blue, 0x000000FF);

    let blue = Color::with_alpha(vec3(0, 0, FX_ONE), FX_ONE);
    assert_eq!(blue, 0xFF0000FF);
}

#[test]
fn channel_quantisation() {
    assert_eq!(channel_byte(FX_ONE), 255);
    assert_eq!(channel_byte(FX_ONE / 2), 127);
    assert_eq!(channel_byte(0), 0);
    assert_eq!(channel_byte(-5), 0);
    assert_eq!(channel_byte(i64::MAX), 255);
}

#[test]
fn packing_layout() {
    assert_eq!(pack_argb(0x12, 0x34, 0x56, 0x78), 0x12345678);
    assert_eq!(pack_argb(255, 0, 0, 0), 0xFF000000);
}

#[test]
fn gamma_is_square_root() {
    let g = linear_to_gamma(vec3(FX_ONE / 4, FX_ONE, 0));
    assert_eq!(g, vec3(FX_ONE / 2, FX_ONE, 0));
    // A negative channel darkens to zero.
    let g = linear_to_gamma(vec3(-FX_ONE, 0, 0));
    assert_eq!(g, vec3(0, 0, 0));
}

#[test]
fn framebuffer_starts_black() {
    let fb = Framebuffer::new(4, 3);
    assert_eq!(fb.width(), 4);
    assert_eq!(fb.height(), 3);
    assert_eq!(fb.data().len(), 12);
    assert!(fb.data().iter().all(|&p| p == 0));
}

#[test]
fn put_and_get_pixel_row_major() {
    let mut fb = Framebuffer::new(4, 3);
    fb.put_pixel(2, 1, 0xABCD);
    assert_eq!(fb.get_pixel(2, 1), 0xABCD);
    assert_eq!(fb.data()[1 * 4 + 2], 0xABCD);
    assert_eq!(fb.get_pixel(1, 2), 0);
}

#[test]
fn for_each_addresses_every_pixel() {
    let mut fb = Framebuffer::new(5, 4);
    fb.for_each(|x, y| (100 * y + x) as u32);
    for y in 0..4 {
        for x in 0..5 {
            assert_eq!(fb.get_pixel(x, y), (100 * y + x) as u32);
        }
    }
}

#[test]
fn clone_copies_pixels() {
    let mut fb = Framebuffer::new(2, 2);
    fb.put_pixel(0, 1, 7);
    let copy = fb.clone();
    assert_eq!(copy.data(), fb.data());
    assert_eq!(copy.width(), 2);
    assert_eq!(copy.height(), 2);
}
