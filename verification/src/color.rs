//! The framebuffer and the pixel format.
//!
//! A framebuffer is a row-major grid of packed pixels; each pixel is one
//! `u32` holding the four 8-bit channels in ARGB order, big-endian (alpha in
//! the top byte). Colour channels arrive as fixed-point values, nominally in
//! `[0, FX_ONE]`, and are quantised to a byte with saturation.

use vstd::prelude::*;

use crate::fixed::{fx_sqrt, fx_sqrt_s, tdiv, FX_ONE};
use crate::vec3::Vec3;
use vstd::pervasive::VecAdditionalExecFns;

verus! {

/// A pixel index `y * width + x` stays inside a `width * height` grid.
pub proof fn lemma_grid_index(w: int, h: int, x: int, y: int)
    by (nonlinear_arith)
    requires
        0 <= x < w,
        0 <= y < h,
    ensures
        0 <= y * w + x < w * h,
{
}

/// Row-major decoding: dividing a flat index by the width recovers the row,
/// the remainder recovers the column.
pub proof fn lemma_grid_coords(w: int, h: int, i: int)
    requires
        w > 0,
        0 <= i < w * h,
    ensures
        0 <= i % w < w,
        0 <= i / w < h,
        (i / w) * w + (i % w) == i,
{
    vstd::arithmetic::div_mod::lemma_fundamental_div_mod(i, w);
    vstd::arithmetic::div_mod::lemma_mod_division_less_than_divisor(i, w);
    vstd::arithmetic::div_mod::lemma_div_pos_is_pos(i, w);
    let q = i / w;
    let r = i % w;
    assert(q < h) by (nonlinear_arith)
        requires
            i == w * q + r,
            0 <= r < w,
            i < w * h,
            w > 0,
            q >= 0,
    ;
    assert(q * w + r == w * q + r) by (nonlinear_arith);
}

/// Quantisation of one fixed-point colour channel to a byte: scale by 255,
/// truncate, and saturate into `[0, 255]`.
pub open spec fn byte_of(x: int) -> int {
    if x < 0 {
        0
    } else if tdiv(x * 255, FX_ONE as int) > 255 {
        255
    } else {
        tdiv(x * 255, FX_ONE as int)
    }
}

/// Big-endian ARGB packing of four bytes into one `u32`.
pub open spec fn packed_s(a: int, r: int, g: int, b: int) -> int {
    a * 0x100_0000 + r * 0x1_0000 + g * 0x100 + b
}

/// The packed pixel a colour and an alpha value quantise to.
pub open spec fn with_alpha_s(c: (int, int, int), alpha: int) -> int {
    packed_s(byte_of(alpha), byte_of(c.0), byte_of(c.1), byte_of(c.2))
}

/// Gamma correction of one channel: square root in fixed point; a negative
/// channel (which a well-formed colour never has) darkens to zero.
pub open spec fn gamma_s(x: int) -> int {
    if x < 0 {
        0
    } else {
        fx_sqrt_s(x)
    }
}

/// Channel quantisation always lands in a byte.
pub proof fn lemma_byte_of_bounds(x: int)
    ensures
        0 <= byte_of(x) <= 255,
{
    if x >= 0 {
        vstd::arithmetic::div_mod::lemma_div_pos_is_pos(x * 255, FX_ONE as int);
    }
}

/// Packing a colour with a full fixed-point alpha yields a pixel whose
/// alpha byte is 255: rendered pixels are fully opaque.
pub proof fn lemma_with_alpha_opaque(c: (int, int, int))
    ensures
        with_alpha_s(c, FX_ONE as int) / 0x100_0000 == 255,
{
    lemma_byte_of_bounds(c.0);
    lemma_byte_of_bounds(c.1);
    lemma_byte_of_bounds(c.2);
    assert(byte_of(FX_ONE as int) == 255) by {
        vstd::arithmetic::div_mod::lemma_div_multiples_vanish(255, FX_ONE as int);
        assert((FX_ONE as int) * 255 == (FX_ONE as int) * 255);
        assert(tdiv((FX_ONE as int) * 255, FX_ONE as int) == ((FX_ONE as int) * 255) / (
        FX_ONE as int));
    }
    let rest = byte_of(c.0) * 0x1_0000 + byte_of(c.1) * 0x100 + byte_of(c.2);
    assert(0 <= rest < 0x100_0000);
    vstd::arithmetic::div_mod::lemma_div_multiples_vanish_fancy(255, rest, 0x100_0000);
}

/// Quantises one fixed-point colour channel to a byte.
pub fn channel_byte(v: i64) -> (r: u8)
    ensures
        r as int == byte_of(v as int),
{
    if v < 0 {
        0
    } else {
        let t: u128 = (v as u128) * 255 / 65536;
        if t > 255 {
            255
        } else {
            t as u8
        }
    }
}

/// Packs four channel bytes into one big-endian ARGB pixel.
pub fn pack_argb(a: u8, r: u8, g: u8, b: u8) -> (p: u32)
    ensures
        p as int == packed_s(a as int, r as int, g as int, b as int),
{
    (a as u32) * 0x100_0000 + (r as u32) * 0x1_0000 + (g as u32) * 0x100 + (b as u32)
}

/// The packing capability of a colour value.
pub trait Color: Sized {
    /// The packed pixel this colour quantises to, given an alpha value.
    spec fn spec_with_alpha(self, alpha: int) -> int;

    /// Packs the colour and an alpha value into one ARGB pixel.
    fn with_alpha(self, alpha: i64) -> (r: u32)
        ensures
            r as int == self.spec_with_alpha(alpha as int),
    ;
}

impl Color for Vec3 {
    open spec fn spec_with_alpha(self, alpha: int) -> int {
        with_alpha_s(self@, alpha)
    }

    fn with_alpha(self, alpha: i64) -> (r: u32)
        ensures
            r as int == self.spec_with_alpha(alpha as int),
    {
        pack_argb(
            channel_byte(alpha),
            channel_byte(self.x),
            channel_byte(self.y),
            channel_byte(self.z),
        )
    }
}

/// Converts a colour from linear space to gamma-corrected space,
/// channel by channel.
pub fn linear_to_gamma(color: Vec3) -> (r: Vec3)
    ensures
        r@ == (gamma_s(color@.0), gamma_s(color@.1), gamma_s(color@.2)),
{
    let x = if color.x < 0 {
        0
    } else {
        fx_sqrt(color.x)
    };
    let y = if color.y < 0 {
        0
    } else {
        fx_sqrt(color.y)
    };
    let z = if color.z < 0 {
        0
    } else {
        fx_sqrt(color.z)
    };
    Vec3 { x, y, z }
}

/// A row-major grid of packed ARGB pixels.
pub struct Framebuffer {
    data: Vec<u32>,
    width: usize,
    height: usize,
}

impl View for Framebuffer {
    type V = Seq<u32>;

    closed spec fn view(&self) -> Seq<u32> {
        self.data@
    }
}

impl Framebuffer {
    /// The width in pixels.
    pub closed spec fn spec_width(&self) -> int {
        self.width as int
    }

    /// The height in pixels.
    pub closed spec fn spec_height(&self) -> int {
        self.height as int
    }

    /// The pixel storage covers the grid exactly.
    pub open spec fn wf(&self) -> bool {
        self@.len() == self.spec_width() * self.spec_height()
    }

    /// Creates a framebuffer of the given dimensions, all pixels zero.
    pub fn new(width: usize, height: usize) -> (r: Framebuffer)
        requires
            width * height <= usize::MAX,
        ensures
            r.wf(),
            r.spec_width() == width as int,
            r.spec_height() == height as int,
            r@.len() == width * height,
            forall|i: int| 0 <= i < r@.len() ==> r@[i] == 0u32,
    {
        let total: usize = width * height;
        let mut data: Vec<u32> = Vec::new();
        let mut i: usize = 0;
        while i < total
            invariant
                i <= total,
                data@.len() == i as int,
                forall|j: int| 0 <= j < i as int ==> data@[j] == 0u32,
            decreases total - i,
        {
            data.push(0);
            i = i + 1;
        }
        Framebuffer { data, width, height }
    }

    /// The width in pixels.
    pub fn width(&self) -> (r: usize)
        ensures
            r as int == self.spec_width(),
    {
        self.width
    }

    /// The height in pixels.
    pub fn height(&self) -> (r: usize)
        ensures
            r as int == self.spec_height(),
    {
        self.height
    }

    /// The pixels as a flat row-major slice.
    pub fn data(&self) -> (r: &[u32])
        ensures
            r@ == self@,
    {
        self.data.as_slice()
    }

    /// Writes one pixel.
    pub fn put_pixel(&mut self, x: usize, y: usize, value: u32)
        requires
            old(self).wf(),
            x < old(self).spec_width(),
            y < old(self).spec_height(),
        ensures
            final(self).wf(),
            final(self).spec_width() == old(self).spec_width(),
            final(self).spec_height() == old(self).spec_height(),
            final(self)@ == old(self)@.update(
                y * old(self).spec_width() + x,
                value,
            ),
    {
        let n = self.data.len();
        proof {
            lemma_grid_index(
                self.spec_width(),
                self.spec_height(),
                x as int,
                y as int,
            );
        }
        let i: usize = y * self.width + x;
        self.data.set(i, value);
    }

    /// Reads one pixel.
    pub fn get_pixel(&self, x: usize, y: usize) -> (r: u32)
        requires
            self.wf(),
            x < self.spec_width(),
            y < self.spec_height(),
        ensures
            r == self@[y * self.spec_width() + x],
    {
        let n = self.data.len();
        proof {
            lemma_grid_index(
                self.spec_width(),
                self.spec_height(),
                x as int,
                y as int,
            );
        }
        let i: usize = y * self.width + x;
        self.data[i]
    }

    /// Runs a shader over every pixel: afterwards each pixel holds a value
    /// the shader may return for that pixel's coordinates.
    pub fn for_each<F: Fn(usize, usize) -> u32>(&mut self, shader: F)
        requires
            old(self).wf(),
            forall|x: usize, y: usize|
                x < old(self).spec_width() && y < old(self).spec_height()
                    ==> call_requires(shader, (x, y)),
        ensures
            final(self).wf(),
            final(self).spec_width() == old(self).spec_width(),
            final(self).spec_height() == old(self).spec_height(),
            final(self)@.len() == old(self)@.len(),
            forall|x: usize, y: usize|
                x < final(self).spec_width() && y < final(self).spec_height()
                    ==> call_ensures(
                    shader,
                    (x, y),
                    #[trigger] final(self)@[y * final(self).spec_width() + x],
                ),
    {
        let w = self.width;
        let h = self.height;
        let total = self.data.len();
        let mut i: usize = 0;
        while i < total
            invariant
                i <= total,
                total == self@.len(),
                self.wf(),
                self.spec_width() == w as int,
                self.spec_height() == h as int,
                forall|x: usize, y: usize|
                    x < w && y < h ==> call_requires(shader, (x, y)),
                forall|j: int|
                    0 <= j < i as int ==> call_ensures(
                        shader,
                        (((j % (w as int)) as usize), ((j / (w as int)) as usize)),
                        #[trigger] self@[j],
                    ),
            decreases total - i,
        {
            proof {
                lemma_grid_coords(w as int, h as int, i as int);
            }
            let x: usize = i % w;
            let y: usize = i / w;
            let value = shader(x, y);
            self.data.set(i, value);
            i = i + 1;
        }
        proof {
            assert forall|x: usize, y: usize|
                x < self.spec_width() && y < self.spec_height() implies #[trigger] call_ensures(
                shader,
                (x, y),
                self@[y * self.spec_width() + x],
            ) by {
                lemma_grid_index(w as int, h as int, x as int, y as int);
                let j = y * (w as int) + x;
                vstd::arithmetic::div_mod::lemma_fundamental_div_mod_converse_div(
                    j,
                    w as int,
                    y as int,
                    x as int,
                );
                vstd::arithmetic::div_mod::lemma_fundamental_div_mod_converse_mod(
                    j,
                    w as int,
                    y as int,
                    x as int,
                );
            }
        }
    }
}

impl Clone for Framebuffer {
    /// A deep copy: same dimensions, same pixels.
    fn clone(&self) -> (r: Self)
        ensures
            r@ == self@,
            r.spec_width() == self.spec_width(),
            r.spec_height() == self.spec_height(),
    {
        let n = self.data.len();
        let mut data: Vec<u32> = Vec::new();
        let mut i: usize = 0;
        while i < n
            invariant
                i <= n,
                n == self@.len(),
                data@.len() == i as int,
                forall|j: int| 0 <= j < i as int ==> data@[j] == self@[j],
            decreases n - i,
        {
            data.push(self.data[i]);
            i = i + 1;
        }
        proof {
            assert(data@ =~= self@);
        }
        Framebuffer { data, width: self.width, height: self.height }
    }
}

} // verus!
