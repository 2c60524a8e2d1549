//! The tile scheduler and compositor.
//!
//! The image is partitioned into a grid of square tiles; each tile is
//! rendered independently by [`render_tile`] and installed with
//! [`MultiThreadedRenderer::set_tile`] — a concurrent driver renders tiles
//! on worker tasks and installs each result as it arrives, while
//! [`MultiThreadedRenderer::render`] does the same work in order. The
//! compositor stitches the collected tiles into one framebuffer,
//! translating each tile-local pixel to its global address; a missing tile
//! is a visible gap of zero pixels, never a crash.

use vstd::prelude::*;

use crate::camera::Camera;
use crate::color::{lemma_grid_coords, lemma_grid_index, Framebuffer};
use crate::renderer::kernel::{
    is_rendered_pixel, pixel_admissible, pixel_color, Renderer,
};
use crate::scene_graph::{Scene, SceneNode};
use vstd::arithmetic::div_mod::{
    lemma_fundamental_div_mod, lemma_fundamental_div_mod_converse_div,
    lemma_fundamental_div_mod_converse_mod,
};
use vstd::arithmetic::mul::lemma_mul_inequality;
use vstd::pervasive::VecAdditionalExecFns;

verus! {

/// A configuration the tile scheduler must reject before any work starts.
#[derive(Clone, Copy, Debug, PartialEq, Eq, Structural)]
pub enum ConfigError {
    /// The tile size is zero.
    ZeroTileSize,
    /// The image dimensions are not divisible by the tile size.
    IndivisibleTileSize,
}

/// A completely rendered square tile of the given size.
pub open spec fn is_rendered_tile(t: Framebuffer, ts: int) -> bool {
    &&& t.wf()
    &&& t.spec_width() == ts
    &&& t.spec_height() == ts
    &&& forall|j: int| 0 <= j < t@.len() ==> is_rendered_pixel(#[trigger] t@[j])
}

/// Local pixel `(lx, ly)` of a tile at grid cell `(column, row)` holds an
/// admissible sampling of the global pixel the tile covers there:
/// `(column * ts + lx, row * ts + ly)`.
pub open spec fn tile_pixel_at(
    camera: Camera,
    scene: Seq<SceneNode>,
    n: u32,
    tilev: Seq<u32>,
    ts: int,
    column: int,
    row: int,
    lx: int,
    ly: int,
) -> bool {
    pixel_admissible(camera, scene, column * ts + lx, row * ts + ly, n, tilev[ly * ts + lx])
}

/// The tile slot of grid cell `(c, r)` holds a fully rendered tile whose
/// every local pixel samples the global pixel it covers.
pub open spec fn slot_rendered_at(
    camera: Camera,
    scene: Seq<SceneNode>,
    n: u32,
    tiles: Seq<Option<Framebuffer>>,
    columns: int,
    ts: int,
    c: int,
    r: int,
) -> bool {
    match tiles[r * columns + c] {
        Some(t) => {
            &&& is_rendered_tile(t, ts)
            &&& forall|lx: int, ly: int|
                0 <= lx < ts && 0 <= ly < ts ==> #[trigger] tile_pixel_at(
                    camera,
                    scene,
                    n,
                    t@,
                    ts,
                    c,
                    r,
                    lx,
                    ly,
                )
        },
        None => false,
    }
}

/// The compositing contract at one global pixel: the pixel holds the
/// corresponding local pixel of its tile, or zero where the tile is
/// missing. The tile of pixel `(gx, gy)` is column `gx / ts`, row
/// `gy / ts`; the local coordinates are the remainders.
pub open spec fn composited_at(
    fbv: Seq<u32>,
    tiles: Seq<Option<Framebuffer>>,
    width: int,
    columns: int,
    ts: int,
    gx: int,
    gy: int,
) -> bool {
    match tiles[(gy / ts) * columns + gx / ts] {
        Some(t) => fbv[gy * width + gx] == t@[(gy % ts) * ts + gx % ts],
        None => fbv[gy * width + gx] == 0,
    }
}

/// As [`composited_at`], but only for tiles below `upto`; pixels of later
/// tiles are still zero. The compositor's loop invariant.
pub open spec fn composited_prefix_at(
    fbv: Seq<u32>,
    tiles: Seq<Option<Framebuffer>>,
    width: int,
    columns: int,
    ts: int,
    upto: int,
    gx: int,
    gy: int,
) -> bool {
    if (gy / ts) * columns + gx / ts < upto {
        composited_at(fbv, tiles, width, columns, ts, gx, gy)
    } else {
        fbv[gy * width + gx] == 0
    }
}

/// The value of one framebuffer pixel after a tile has been copied in at
/// offset `(sx, sy)`: the tile's pixel inside the rectangle, the original
/// pixel outside it.
pub open spec fn blitted(
    orig: Seq<u32>,
    tile: Seq<u32>,
    width: int,
    sx: int,
    sy: int,
    tw: int,
    th: int,
    g: int,
) -> u32 {
    let gx = g % width;
    let gy = g / width;
    if sx <= gx < sx + tw && sy <= gy < sy + th {
        tile[(gy - sy) * tw + (gx - sx)]
    } else {
        orig[g]
    }
}

/// As [`blitted`], but only for the first `done` tile pixels in tile
/// row-major order. The blit loop invariant.
pub open spec fn blit_prefix(
    orig: Seq<u32>,
    tile: Seq<u32>,
    width: int,
    sx: int,
    sy: int,
    tw: int,
    th: int,
    done: int,
    g: int,
) -> u32 {
    let gx = g % width;
    let gy = g / width;
    if sx <= gx < sx + tw && sy <= gy < sy + th && (gy - sy) * tw + (gx - sx) < done {
        tile[(gy - sy) * tw + (gx - sx)]
    } else {
        orig[g]
    }
}

/// The whole tiling decomposes exactly: a coordinate strictly below
/// `count * ts` lies in tile `g / ts` at local offset `g % ts`, and the
/// translation back is the identity.
pub proof fn lemma_tile_coords(ts: int, count: int, g: int)
    requires
        ts >= 1,
        count >= 0,
        0 <= g < ts * count,
    ensures
        0 <= g / ts < count,
        0 <= g % ts < ts,
        (g / ts) * ts + (g % ts) == g,
{
    lemma_grid_coords(ts, count, g);
}

/// Compositing is the exact inverse of the tile decomposition: at every
/// global pixel written from a collected tile, the composited framebuffer
/// returns that tile's local pixel, and the pixels of a missing tile are
/// zero. In particular a single tile the size of the image reproduces the
/// image pixel for pixel, and any even tiling reassembles it exactly.
pub proof fn lemma_compositor_translation(
    fbv: Seq<u32>,
    tiles: Seq<Option<Framebuffer>>,
    width: int,
    columns: int,
    ts: int,
    c: int,
    row: int,
    lx: int,
    ly: int,
)
    requires
        ts >= 1,
        0 <= c < columns,
        0 <= row,
        0 <= lx < ts,
        0 <= ly < ts,
        composited_at(fbv, tiles, width, columns, ts, c * ts + lx, row * ts + ly),
    ensures
        tiles[row * columns + c] matches Some(t) ==> fbv[(row * ts + ly) * width + (c * ts
            + lx)] == t@[ly * ts + lx],
        tiles[row * columns + c] is None ==> fbv[(row * ts + ly) * width + (c * ts + lx)]
            == 0,
{
    let gx = c * ts + lx;
    let gy = row * ts + ly;
    lemma_fundamental_div_mod_converse_div(gx, ts, c, lx);
    lemma_fundamental_div_mod_converse_mod(gx, ts, c, lx);
    lemma_fundamental_div_mod_converse_div(gy, ts, row, ly);
    lemma_fundamental_div_mod_converse_mod(gy, ts, row, ly);
}

/// Copies a tile into the framebuffer at the given offset.
fn blit_tile(fb: &mut Framebuffer, tile: &Framebuffer, sx: usize, sy: usize)
    requires
        old(fb).wf(),
        tile.wf(),
        sx + tile.spec_width() <= old(fb).spec_width(),
        sy + tile.spec_height() <= old(fb).spec_height(),
    ensures
        final(fb).wf(),
        final(fb).spec_width() == old(fb).spec_width(),
        final(fb).spec_height() == old(fb).spec_height(),
        forall|g: int|
            0 <= g < final(fb)@.len() ==> #[trigger] final(fb)@[g] == blitted(
                old(fb)@,
                tile@,
                old(fb).spec_width(),
                sx as int,
                sy as int,
                tile.spec_width(),
                tile.spec_height(),
                g,
            ),
{
    let ghost orig = fb@;
    let fw = fb.width();
    let fh = fb.height();
    let ghost width = fw as int;
    let ghost height = fh as int;
    let tw = tile.width();
    let th = tile.height();
    let mut ly: usize = 0;
    while ly < th
        invariant
            ly <= th,
            fb.wf(),
            fb.spec_width() == width,
            fb.spec_height() == height,
            tile.wf(),
            tw as int == tile.spec_width(),
            th as int == tile.spec_height(),
            width <= usize::MAX as int,
            height <= usize::MAX as int,
            sx + tw as int <= width,
            sy + th as int <= height,
            forall|g: int|
                0 <= g < fb@.len() ==> #[trigger] fb@[g] == blit_prefix(
                    orig,
                    tile@,
                    width,
                    sx as int,
                    sy as int,
                    tw as int,
                    th as int,
                    (ly as int) * (tw as int),
                    g,
                ),
        decreases th - ly,
    {
        let mut lx: usize = 0;
        while lx < tw
            invariant
                lx <= tw,
                ly < th,
                fb.wf(),
                fb.spec_width() == width,
                fb.spec_height() == height,
                tile.wf(),
                tw as int == tile.spec_width(),
                th as int == tile.spec_height(),
                width <= usize::MAX as int,
                height <= usize::MAX as int,
                sx + tw as int <= width,
                sy + th as int <= height,
                forall|g: int|
                    0 <= g < fb@.len() ==> #[trigger] fb@[g] == blit_prefix(
                        orig,
                        tile@,
                        width,
                        sx as int,
                        sy as int,
                        tw as int,
                        th as int,
                        (ly as int) * (tw as int) + lx as int,
                        g,
                    ),
            decreases tw - lx,
        {
            let v = tile.get_pixel(lx, ly);
            let ghost prev = fb@;
            let ghost done = (ly as int) * (tw as int) + lx as int;
            fb.put_pixel(sx + lx, sy + ly, v);
            proof {
                let gbig = ((sy + ly) as int) * width + (sx + lx) as int;
                lemma_grid_index(width, height, (sx + lx) as int, (sy + ly) as int);
                lemma_grid_index(tw as int, th as int, lx as int, ly as int);
                lemma_fundamental_div_mod_converse_div(
                    gbig,
                    width,
                    (sy + ly) as int,
                    (sx + lx) as int,
                );
                lemma_fundamental_div_mod_converse_mod(
                    gbig,
                    width,
                    (sy + ly) as int,
                    (sx + lx) as int,
                );
                assert forall|g: int| 0 <= g < fb@.len() implies #[trigger] fb@[g]
                    == blit_prefix(
                    orig,
                    tile@,
                    width,
                    sx as int,
                    sy as int,
                    tw as int,
                    th as int,
                    done + 1,
                    g,
                ) by {
                    let gx = g % width;
                    let gy = g / width;
                    lemma_grid_coords(width, height, g);
                    if g == gbig {
                        assert(fb@[g] == v);
                        assert(tile@[done] == v);
                    } else {
                        assert(fb@[g] == prev[g]);
                        if sx <= gx < sx + tw as int && sy <= gy < sy + th as int && (gy
                            - sy) * (tw as int) + (gx - sx) == done {
                            lemma_fundamental_div_mod_converse_div(
                                done,
                                tw as int,
                                gy - sy,
                                gx - sx,
                            );
                            lemma_fundamental_div_mod_converse_mod(
                                done,
                                tw as int,
                                gy - sy,
                                gx - sx,
                            );
                            lemma_fundamental_div_mod_converse_div(
                                done,
                                tw as int,
                                ly as int,
                                lx as int,
                            );
                            lemma_fundamental_div_mod_converse_mod(
                                done,
                                tw as int,
                                ly as int,
                                lx as int,
                            );
                            assert(gx == (sx + lx) as int && gy == (sy + ly) as int);
                            assert(g == gbig);
                            assert(false);
                        }
                    }
                }
            }
            lx = lx + 1;
        }
        proof {
            assert(((ly as int) + 1) * (tw as int) == (ly as int) * (tw as int) + tw as int)
                by (nonlinear_arith);
        }
        ly = ly + 1;
    }
    proof {
        assert forall|g: int| 0 <= g < fb@.len() implies #[trigger] fb@[g] == blitted(
            orig,
            tile@,
            width,
            sx as int,
            sy as int,
            tw as int,
            th as int,
            g,
        ) by {
            let gx = g % width;
            let gy = g / width;
            lemma_grid_coords(width, height, g);
            if sx <= gx < sx + tw as int && sy <= gy < sy + th as int {
                assert((gy - sy) * (tw as int) + (gx - sx) < (th as int) * (tw as int)) by {
                    lemma_grid_index(tw as int, th as int, gx - sx, gy - sy);
                }
            }
        }
    }
}

/// Renders a single square tile of the image: tile `(column, row)` covers
/// global pixels `[column*tile_size, (column+1)*tile_size) ×
/// [row*tile_size, (row+1)*tile_size)`. A concurrent driver calls this on
/// a worker task and hands the result back to the collector.
pub fn render_tile(
    column: u32,
    row: u32,
    scene: &Scene,
    camera: &Camera,
    tile_size: u32,
    number_of_samples: u32,
) -> (r: Framebuffer)
    requires
        camera.wf(),
        scene.wf(),
        number_of_samples >= 1,
        tile_size >= 1,
        ((column as int) + 1) * (tile_size as int) <= camera.width,
        ((row as int) + 1) * (tile_size as int) <= camera.height,
    ensures
        is_rendered_tile(r, tile_size as int),
        forall|lx: int, ly: int|
            0 <= lx < tile_size && 0 <= ly < tile_size ==> #[trigger] tile_pixel_at(
                *camera,
                scene@,
                number_of_samples,
                r@,
                tile_size as int,
                column as int,
                row as int,
                lx,
                ly,
            ),
{
    let ts = tile_size;
    proof {
        assert((ts as int) * (ts as int) <= (camera.width as int) * (camera.height as int))
            by (nonlinear_arith)
            requires
                1 <= ts,
                (column as int + 1) * (ts as int) <= camera.width,
                (row as int + 1) * (ts as int) <= camera.height,
                0 <= column,
                0 <= row,
        ;
    }
    let mut fb = Framebuffer::new(ts as usize, ts as usize);
    proof {
        assert((column as int) * (ts as int) + ts as int == ((column as int) + 1) * (
        ts as int)) by (nonlinear_arith);
        assert((row as int) * (ts as int) + ts as int == ((row as int) + 1) * (ts as int))
            by (nonlinear_arith);
    }
    let start_x = column * ts;
    let start_y = row * ts;
    let mut ly: u32 = 0;
    while ly < ts
        invariant
            ly <= ts,
            camera.wf(),
            scene.wf(),
            number_of_samples >= 1,
            ts >= 1,
            start_x == column * ts,
            start_y == row * ts,
            (start_x as int) + ts as int <= camera.width,
            (start_y as int) + ts as int <= camera.height,
            fb.wf(),
            fb.spec_width() == ts as int,
            fb.spec_height() == ts as int,
            forall|j: int|
                0 <= j < (ly as int) * (ts as int) ==> is_rendered_pixel(#[trigger] fb@[j]),
            forall|qx: int, qy: int|
                0 <= qx < ts && 0 <= qy < ly as int ==> #[trigger] tile_pixel_at(
                    *camera,
                    scene@,
                    number_of_samples,
                    fb@,
                    ts as int,
                    column as int,
                    row as int,
                    qx,
                    qy,
                ),
        decreases ts - ly,
    {
        let mut lx: u32 = 0;
        while lx < ts
            invariant
                lx <= ts,
                ly < ts,
                camera.wf(),
                scene.wf(),
                number_of_samples >= 1,
                ts >= 1,
                start_x == column * ts,
                start_y == row * ts,
                (start_x as int) + ts as int <= camera.width,
                (start_y as int) + ts as int <= camera.height,
                fb.wf(),
                fb.spec_width() == ts as int,
                fb.spec_height() == ts as int,
                forall|j: int|
                    0 <= j < (ly as int) * (ts as int) + lx as int ==> is_rendered_pixel(
                        #[trigger] fb@[j],
                    ),
                forall|qx: int, qy: int|
                    0 <= qx < ts && 0 <= qy < ts && (qy < ly as int || (qy == ly as int && qx
                        < lx as int)) ==> #[trigger] tile_pixel_at(
                        *camera,
                        scene@,
                        number_of_samples,
                        fb@,
                        ts as int,
                        column as int,
                        row as int,
                        qx,
                        qy,
                    ),
            decreases ts - lx,
        {
            let x = start_x + lx;
            let y = start_y + ly;
            let pixel = pixel_color(camera, scene, x, y, number_of_samples);
            let ghost prev = fb@;
            fb.put_pixel(lx as usize, ly as usize, pixel);
            proof {
                lemma_grid_index(ts as int, ts as int, lx as int, ly as int);
                let idx = (ly as int) * (ts as int) + lx as int;
                assert forall|j: int| 0 <= j < idx + 1 implies is_rendered_pixel(
                    #[trigger] fb@[j],
                ) by {
                    if j < idx {
                        assert(fb@[j] == prev[j]);
                    } else {
                        assert(fb@[j] == pixel);
                    }
                }
                assert((x as int) == (column as int) * (ts as int) + lx as int);
                assert((y as int) == (row as int) * (ts as int) + ly as int);
                assert forall|qx: int, qy: int|
                    0 <= qx < ts && 0 <= qy < ts && (qy < ly as int || (qy == ly as int && qx
                        <= lx as int)) implies #[trigger] tile_pixel_at(
                    *camera,
                    scene@,
                    number_of_samples,
                    fb@,
                    ts as int,
                    column as int,
                    row as int,
                    qx,
                    qy,
                ) by {
                    lemma_grid_index(ts as int, ts as int, qx, qy);
                    let j = qy * (ts as int) + qx;
                    if j == idx {
                        lemma_fundamental_div_mod_converse_div(j, ts as int, qy, qx);
                        lemma_fundamental_div_mod_converse_div(
                            idx,
                            ts as int,
                            ly as int,
                            lx as int,
                        );
                        lemma_fundamental_div_mod_converse_mod(j, ts as int, qy, qx);
                        lemma_fundamental_div_mod_converse_mod(
                            idx,
                            ts as int,
                            ly as int,
                            lx as int,
                        );
                        assert(qx == lx as int && qy == ly as int);
                        assert(fb@[j] == pixel);
                    } else {
                        assert(fb@[j] == prev[j]);
                        assert(tile_pixel_at(
                            *camera,
                            scene@,
                            number_of_samples,
                            prev,
                            ts as int,
                            column as int,
                            row as int,
                            qx,
                            qy,
                        ));
                    }
                }
            }
            lx = lx + 1;
        }
        proof {
            assert(((ly as int) + 1) * (ts as int) == (ly as int) * (ts as int) + ts as int)
                by (nonlinear_arith);
        }
        ly = ly + 1;
    }
    fb
}

/// A tile-parallel renderer: collected tiles, stitched on demand.
pub struct MultiThreadedRenderer {
    pub camera: Camera,
    pub number_of_samples: u32,
    tiles: Vec<Option<Framebuffer>>,
    tile_size: u32,
}

impl MultiThreadedRenderer {
    /// The camera configuration.
    pub closed spec fn spec_camera(&self) -> Camera {
        self.camera
    }

    /// Samples per pixel.
    pub closed spec fn spec_samples(&self) -> u32 {
        self.number_of_samples
    }

    /// The edge length of a tile, in pixels.
    pub closed spec fn spec_tile_size(&self) -> u32 {
        self.tile_size
    }

    /// The collected tiles, one slot per grid cell, row-major.
    pub closed spec fn spec_tiles(&self) -> Seq<Option<Framebuffer>> {
        self.tiles@
    }

    /// Tiles per image row.
    pub open spec fn spec_columns(&self) -> int {
        (self.spec_camera().width as int) / (self.spec_tile_size() as int)
    }

    /// Tiles per image column.
    pub open spec fn spec_rows(&self) -> int {
        (self.spec_camera().height as int) / (self.spec_tile_size() as int)
    }

    /// Builds the scheduler, rejecting a configuration whose dimensions the
    /// tile size does not evenly divide — before any work is spawned.
    pub fn new(camera: Camera, number_of_samples: u32, tile_size: u32) -> (r: Result<
        MultiThreadedRenderer,
        ConfigError,
    >)
        requires
            camera.wf(),
            number_of_samples >= 1,
        ensures
            r is Ok <==> tile_size >= 1 && camera.width as int % tile_size as int == 0
                && camera.height as int % tile_size as int == 0,
            r matches Ok(m) ==> {
                &&& m.wf()
                &&& m.spec_camera() == camera
                &&& m.spec_samples() == number_of_samples
                &&& m.spec_tile_size() == tile_size
                &&& m.spec_tiles().len() == m.spec_columns() * m.spec_rows()
                &&& forall|i: int| 0 <= i < m.spec_tiles().len() ==> m.spec_tiles()[i] is None
            },
            r matches Err(e) ==> (e == ConfigError::ZeroTileSize <==> tile_size == 0),
    {
        if tile_size == 0 {
            return Err(ConfigError::ZeroTileSize);
        }
        if camera.width % tile_size != 0 || camera.height % tile_size != 0 {
            return Err(ConfigError::IndivisibleTileSize);
        }
        let columns = camera.width / tile_size;
        let rows = camera.height / tile_size;
        proof {
            vstd::arithmetic::div_mod::lemma_div_nonincreasing(camera.width as int,
                tile_size as int);
            vstd::arithmetic::div_mod::lemma_div_nonincreasing(camera.height as int,
                tile_size as int);
            vstd::arithmetic::div_mod::lemma_div_pos_is_pos(camera.width as int,
                tile_size as int);
            vstd::arithmetic::div_mod::lemma_div_pos_is_pos(camera.height as int,
                tile_size as int);
            vstd::arithmetic::mul::lemma_mul_upper_bound(
                columns as int,
                camera.width as int,
                rows as int,
                camera.height as int,
            );
        }
        let total: u64 = (columns as u64) * (rows as u64);
        let total: usize = total as usize;
        let mut tiles: Vec<Option<Framebuffer>> = Vec::new();
        let mut i: usize = 0;
        while i < total
            invariant
                i <= total,
                tiles@.len() == i as int,
                forall|j: int| 0 <= j < i as int ==> tiles@[j] is None,
            decreases total - i,
        {
            tiles.push(None);
            i = i + 1;
        }
        Ok(MultiThreadedRenderer { camera, number_of_samples, tiles, tile_size })
    }

    /// Installs one collected tile at its grid cell. The concurrent driver
    /// calls this once per tile as results arrive.
    pub fn set_tile(&mut self, column: u32, row: u32, tile: Framebuffer)
        requires
            old(self).wf(),
            column < old(self).spec_columns(),
            row < old(self).spec_rows(),
            tile.wf(),
            tile.spec_width() == old(self).spec_tile_size() as int,
            tile.spec_height() == old(self).spec_tile_size() as int,
        ensures
            final(self).wf(),
            final(self).spec_camera() == old(self).spec_camera(),
            final(self).spec_samples() == old(self).spec_samples(),
            final(self).spec_tile_size() == old(self).spec_tile_size(),
            final(self).spec_tiles() == old(self).spec_tiles().update(
                (row as int) * old(self).spec_columns() + column as int,
                Some(tile),
            ),
    {
        let columns = self.camera.width / self.tile_size;
        proof {
            lemma_grid_index(
                self.spec_columns(),
                self.spec_rows(),
                column as int,
                row as int,
            );
        }
        let n = self.tiles.len();
        let idx: usize = (row as usize) * (columns as usize) + (column as usize);
        self.tiles.set(idx, Some(tile));
    }

    /// One compositing step preserves the prefix invariant: blitting tile
    /// `k` (or skipping it when missing) extends the composited prefix from
    /// `k` to `k + 1`.
    proof fn lemma_composite_step(
        &self,
        prevfb: Seq<u32>,
        newfb: Seq<u32>,
        width: int,
        height: int,
        columns: int,
        rows: int,
        ts: int,
        k: int,
        column: int,
        row: int,
    )
        requires
            self.wf(),
            ts == self.spec_tile_size(),
            ts >= 1,
            width == self.spec_camera().width,
            height == self.spec_camera().height,
            columns == self.spec_columns(),
            rows == self.spec_rows(),
            width == ts * columns,
            height == ts * rows,
            0 <= k < self.spec_tiles().len(),
            self.spec_tiles().len() == columns * rows,
            column == k % columns,
            row == k / columns,
            prevfb.len() == width * height,
            newfb.len() == width * height,
            forall|gx: int, gy: int|
                0 <= gx < width && 0 <= gy < height ==> #[trigger] composited_prefix_at(
                    prevfb,
                    self.spec_tiles(),
                    width,
                    columns,
                    ts,
                    k,
                    gx,
                    gy,
                ),
            self.spec_tiles()[k] is None ==> newfb == prevfb,
            self.spec_tiles()[k] matches Some(t) ==> forall|g: int|
                0 <= g < newfb.len() ==> #[trigger] newfb[g] == blitted(
                    prevfb,
                    t@,
                    width,
                    column * ts,
                    row * ts,
                    ts,
                    ts,
                    g,
                ),
        ensures
            forall|gx: int, gy: int|
                0 <= gx < width && 0 <= gy < height ==> #[trigger] composited_prefix_at(
                    newfb,
                    self.spec_tiles(),
                    width,
                    columns,
                    ts,
                    k + 1,
                    gx,
                    gy,
                ),
    {
        lemma_grid_coords(columns, rows, k);
        assert forall|gx: int, gy: int|
            0 <= gx < width && 0 <= gy < height implies #[trigger] composited_prefix_at(
            newfb,
            self.spec_tiles(),
            width,
            columns,
            ts,
            k + 1,
            gx,
            gy,
        ) by {
            lemma_tile_coords(ts, columns, gx);
            lemma_tile_coords(ts, rows, gy);
            let c2 = gx / ts;
            let r2 = gy / ts;
            let slot = r2 * columns + c2;
            lemma_grid_index(columns, rows, c2, r2);
            let g = gy * width + gx;
            lemma_grid_index(width, height, gx, gy);
            lemma_fundamental_div_mod_converse_div(g, width, gy, gx);
            lemma_fundamental_div_mod_converse_mod(g, width, gy, gx);
            let sx = column * ts;
            let sy = row * ts;
            // The rectangle of tile k covers exactly the pixels whose tile
            // decode is (column, row).
            if slot == k {
                lemma_fundamental_div_mod_converse_div(k, columns, r2, c2);
                lemma_fundamental_div_mod_converse_mod(k, columns, r2, c2);
                assert(c2 == column && r2 == row);
                assert(sx <= gx < sx + ts) by {
                    assert(gx == c2 * ts + gx % ts);
                }
                assert(sy <= gy < sy + ts) by {
                    assert(gy == r2 * ts + gy % ts);
                }
                match self.spec_tiles()[k] {
                    Some(t) => {
                        assert(newfb[g] == blitted(prevfb, t@, width, sx, sy, ts, ts, g));
                        assert(newfb[g] == t@[(gy - sy) * ts + (gx - sx)]);
                        assert(gy - sy == gy % ts && gx - sx == gx % ts);
                    },
                    None => {
                        assert(newfb[g] == prevfb[g]);
                        assert(composited_prefix_at(
                            prevfb,
                            self.spec_tiles(),
                            width,
                            columns,
                            ts,
                            k,
                            gx,
                            gy,
                        ));
                    },
                }
            } else {
                // Outside tile k's rectangle the framebuffer is untouched.
                assert(composited_prefix_at(
                    prevfb,
                    self.spec_tiles(),
                    width,
                    columns,
                    ts,
                    k,
                    gx,
                    gy,
                ));
                match self.spec_tiles()[k] {
                    Some(t) => {
                        assert(newfb[g] == blitted(prevfb, t@, width, sx, sy, ts, ts, g));
                        if sx <= gx < sx + ts && sy <= gy < sy + ts {
                            lemma_fundamental_div_mod_converse_div(gx, ts, column, gx - sx);
                            lemma_fundamental_div_mod_converse_div(gy, ts, row, gy - sy);
                            assert(c2 == column && r2 == row);
                            assert(slot == k);
                            assert(false);
                        }
                        assert(newfb[g] == prevfb[g]);
                    },
                    None => {
                        assert(newfb[g] == prevfb[g]);
                    },
                }
            }
        }
    }
}

impl Renderer for MultiThreadedRenderer {
    /// Valid tiling configuration, and every collected tile is a
    /// well-formed square of the tile size.
    closed spec fn wf(&self) -> bool {
        &&& self.camera.wf()
        &&& self.number_of_samples >= 1
        &&& self.tile_size >= 1
        &&& (self.camera.width as int) % (self.tile_size as int) == 0
        &&& (self.camera.height as int) % (self.tile_size as int) == 0
        &&& self.tiles@.len() == self.spec_columns() * self.spec_rows()
        &&& forall|i: int|
            0 <= i < self.tiles@.len() ==> ((#[trigger] self.tiles@[i]) matches Some(t)
                ==> t.wf() && t.spec_width() == self.tile_size as int && t.spec_height()
                == self.tile_size as int)
    }

    /// Renders every tile of the grid in order and installs each result:
    /// afterwards no tile is missing, and each is fully rendered. A
    /// concurrent driver reaches the same state by fanning
    /// [`render_tile`] out to workers and installing each tile with
    /// [`MultiThreadedRenderer::set_tile`] as it arrives.
    fn render(&mut self, scene: &Scene)
        ensures
            final(self).spec_camera() == old(self).spec_camera(),
            final(self).spec_samples() == old(self).spec_samples(),
            final(self).spec_tile_size() == old(self).spec_tile_size(),
            forall|i: int|
                0 <= i < final(self).spec_tiles().len() ==> ((
                #[trigger] final(self).spec_tiles()[i]) matches Some(t)
                    && is_rendered_tile(t, final(self).spec_tile_size() as int)),
            forall|c: int, r: int|
                0 <= c < old(self).spec_columns() && 0 <= r < old(self).spec_rows()
                    ==> #[trigger] slot_rendered_at(
                    old(self).spec_camera(),
                    scene@,
                    old(self).spec_samples(),
                    final(self).spec_tiles(),
                    old(self).spec_columns(),
                    old(self).spec_tile_size() as int,
                    c,
                    r,
                ),
    {
        let camera = self.camera;
        let number_of_samples = self.number_of_samples;
        let ts = self.tile_size;
        let columns = camera.width / ts;
        let rows = camera.height / ts;
        let total = self.tiles.len();
        proof {
            lemma_fundamental_div_mod(camera.width as int, ts as int);
            lemma_fundamental_div_mod(camera.height as int, ts as int);
            if camera.width < ts {
                vstd::arithmetic::div_mod::lemma_small_mod(
                    camera.width as nat,
                    ts as nat,
                );
            }
            if camera.height < ts {
                vstd::arithmetic::div_mod::lemma_small_mod(
                    camera.height as nat,
                    ts as nat,
                );
            }
            vstd::arithmetic::div_mod::lemma_div_non_zero(camera.width as int, ts as int);
            vstd::arithmetic::div_mod::lemma_div_non_zero(camera.height as int, ts as int);
        }
        let mut k: usize = 0;
        while k < total
            invariant
                k <= total,
                camera.wf(),
                scene.wf(),
                number_of_samples >= 1,
                ts >= 1,
                columns >= 1,
                rows >= 1,
                columns as int == (camera.width as int) / (ts as int),
                rows as int == (camera.height as int) / (ts as int),
                camera.width as int == (ts as int) * (columns as int),
                camera.height as int == (ts as int) * (rows as int),
                total == (columns as int) * (rows as int),
                self.camera == camera,
                self.number_of_samples == number_of_samples,
                self.tile_size == ts,
                self.tiles@.len() == total,
                (camera.width as int) % (ts as int) == 0,
                (camera.height as int) % (ts as int) == 0,
                forall|j: int|
                    0 <= j < k as int ==> ((#[trigger] self.tiles@[j]) matches Some(t)
                        && is_rendered_tile(t, ts as int)),
                forall|j: int|
                    0 <= j < total ==> ((#[trigger] self.tiles@[j]) matches Some(t) ==> t.wf()
                        && t.spec_width() == ts as int && t.spec_height() == ts as int),
                forall|c: int, r: int|
                    0 <= c < columns && 0 <= r < rows && r * (columns as int) + c < k as int
                        ==> #[trigger] slot_rendered_at(
                        camera,
                        scene@,
                        number_of_samples,
                        self.tiles@,
                        columns as int,
                        ts as int,
                        c,
                        r,
                    ),
            decreases total - k,
        {
            proof {
                lemma_grid_coords(columns as int, rows as int, k as int);
            }
            let column = (k % (columns as usize)) as u32;
            let row = (k / (columns as usize)) as u32;
            proof {
                lemma_mul_inequality(column as int + 1, columns as int, ts as int);
                lemma_mul_inequality(row as int + 1, rows as int, ts as int);
                assert((columns as int) * (ts as int) == (ts as int) * (columns as int))
                    by (nonlinear_arith);
                assert((rows as int) * (ts as int) == (ts as int) * (rows as int))
                    by (nonlinear_arith);
            }
            let tile = render_tile(column, row, scene, &camera, ts, number_of_samples);
            let ghost prev = self.tiles@;
            self.tiles.set(k, Some(tile));
            proof {
                assert forall|c: int, r: int|
                    0 <= c < columns && 0 <= r < rows && r * (columns as int) + c < k as int
                        + 1 implies #[trigger] slot_rendered_at(
                    camera,
                    scene@,
                    number_of_samples,
                    self.tiles@,
                    columns as int,
                    ts as int,
                    c,
                    r,
                ) by {
                    lemma_grid_index(columns as int, rows as int, c, r);
                    let slot = r * (columns as int) + c;
                    if slot == k as int {
                        lemma_fundamental_div_mod_converse_div(slot, columns as int, r, c);
                        lemma_fundamental_div_mod_converse_mod(slot, columns as int, r, c);
                        assert(c == column as int && r == row as int);
                        assert(self.tiles@[slot] == Some(tile));
                    } else {
                        assert(self.tiles@[slot] == prev[slot]);
                        assert(slot_rendered_at(
                            camera,
                            scene@,
                            number_of_samples,
                            prev,
                            columns as int,
                            ts as int,
                            c,
                            r,
                        ));
                    }
                }
            }
            k = k + 1;
        }
        proof {
            assert forall|c: int, r: int|
                0 <= c < columns && 0 <= r < rows implies #[trigger] slot_rendered_at(
                camera,
                scene@,
                number_of_samples,
                self.tiles@,
                columns as int,
                ts as int,
                c,
                r,
            ) by {
                lemma_grid_index(columns as int, rows as int, c, r);
            }
        }
    }

    /// Stitches the collected tiles into the full image: every global
    /// pixel holds the corresponding local pixel of its tile, and the
    /// pixels of a missing tile stay zero — a gap, not a failure.
    fn framebuffer(&self) -> (r: Framebuffer)
        ensures
            r.spec_width() == self.spec_camera().width as int,
            r.spec_height() == self.spec_camera().height as int,
            forall|gx: int, gy: int|
                0 <= gx < self.spec_camera().width && 0 <= gy < self.spec_camera().height
                    ==> #[trigger] composited_at(
                    r@,
                    self.spec_tiles(),
                    self.spec_camera().width as int,
                    self.spec_columns(),
                    self.spec_tile_size() as int,
                    gx,
                    gy,
                ),
    {
        let width = self.camera.width;
        let height = self.camera.height;
        let ts = self.tile_size;
        let columns = width / ts;
        let rows = height / ts;
        let total = self.tiles.len();
        proof {
            lemma_fundamental_div_mod(width as int, ts as int);
            lemma_fundamental_div_mod(height as int, ts as int);
        }
        let mut fb = Framebuffer::new(width as usize, height as usize);
        proof {
            assert forall|gx: int, gy: int|
                0 <= gx < width && 0 <= gy < height implies #[trigger] composited_prefix_at(
                fb@,
                self.spec_tiles(),
                width as int,
                columns as int,
                ts as int,
                0,
                gx,
                gy,
            ) by {
                lemma_grid_index(width as int, height as int, gx, gy);
            }
        }
        let mut k: usize = 0;
        while k < total
            invariant
                k <= total,
                self.wf(),
                width == self.spec_camera().width,
                height == self.spec_camera().height,
                ts == self.spec_tile_size(),
                ts >= 1,
                columns as int == self.spec_columns(),
                rows as int == self.spec_rows(),
                width as int == (ts as int) * (columns as int),
                height as int == (ts as int) * (rows as int),
                total == self.spec_tiles().len(),
                total == (columns as int) * (rows as int),
                fb.wf(),
                fb.spec_width() == width as int,
                fb.spec_height() == height as int,
                forall|gx: int, gy: int|
                    0 <= gx < width && 0 <= gy < height ==> #[trigger] composited_prefix_at(
                        fb@,
                        self.spec_tiles(),
                        width as int,
                        columns as int,
                        ts as int,
                        k as int,
                        gx,
                        gy,
                    ),
            decreases total - k,
        {
            proof {
                lemma_grid_coords(columns as int, rows as int, k as int);
            }
            let column: usize = k % (columns as usize);
            let row: usize = k / (columns as usize);
            proof {
                lemma_mul_inequality(column as int + 1, columns as int, ts as int);
                lemma_mul_inequality(row as int + 1, rows as int, ts as int);
                assert((columns as int) * (ts as int) == (ts as int) * (columns as int))
                    by (nonlinear_arith);
                assert((rows as int) * (ts as int) == (ts as int) * (rows as int))
                    by (nonlinear_arith);
                assert((column as int) * (ts as int) + ts as int == (column as int + 1) * (
                ts as int)) by (nonlinear_arith);
                assert((row as int) * (ts as int) + ts as int == (row as int + 1) * (
                ts as int)) by (nonlinear_arith);
            }
            let sx: usize = column * (ts as usize);
            let sy: usize = row * (ts as usize);
            let ghost prevfb = fb@;
            match &self.tiles[k] {
                Some(tile) => {
                    blit_tile(&mut fb, tile, sx, sy);
                },
                None => {},
            }
            proof {
                self.lemma_composite_step(
                    prevfb,
                    fb@,
                    width as int,
                    height as int,
                    columns as int,
                    rows as int,
                    ts as int,
                    k as int,
                    column as int,
                    row as int,
                );
            }
            k = k + 1;
        }
        proof {
            assert forall|gx: int, gy: int|
                0 <= gx < width && 0 <= gy < height implies #[trigger] composited_at(
                fb@,
                self.spec_tiles(),
                width as int,
                columns as int,
                ts as int,
                gx,
                gy,
            ) by {
                lemma_tile_coords(ts as int, columns as int, gx);
                lemma_tile_coords(ts as int, rows as int, gy);
                lemma_grid_index(columns as int, rows as int, gx / (ts as int), gy / (
                ts as int));
                assert(composited_prefix_at(
                    fb@,
                    self.spec_tiles(),
                    width as int,
                    columns as int,
                    ts as int,
                    total as int,
                    gx,
                    gy,
                ));
            }
        }
        fb
    }
}

} // verus!
