//! A chunk and its eight neighbours, addressed as one grid.
//!
//! Local coordinates run over the centre chunk, `[0, CHUNK_SIZE)` on each
//! axis, and one chunk further in every direction. The nine chunks are laid
//! out row by row, so the centre has index 4.

use vstd::prelude::*;
use crate::helper::SimulationHelper;
use crate::material::{Color, LIGHT_FULL, Light, LightTexel, MaterialInstance};
use crate::particle::{Particle, Position};
use crate::rect::Rect;
use crate::rule::Velocity;

verus! {

/// Side of a chunk, in pixels.
pub const CHUNK_SIZE: u16 = 100;

/// Number of pixels in a chunk.
pub const CHUNK_AREA: usize = 10_000;

/// Index of the centre among the nine chunks.
pub const CENTER_CHUNK: usize = 4;

/// Whether `(x, y)` lies in the centre chunk or its halo.
pub open spec fn in_halo(x: int, y: int) -> bool {
    -(CHUNK_SIZE as int) <= x < 2 * CHUNK_SIZE && -(CHUNK_SIZE as int) <= y < 2 * CHUNK_SIZE
}

/// Which of the nine chunks holds `(x, y)`: floor division picks the column
/// and the row.
pub open spec fn chunk_index(x: int, y: int) -> int {
    (x / (CHUNK_SIZE as int) + 1) + (y / (CHUNK_SIZE as int) + 1) * 3
}

/// The column of `(x, y)` within its chunk.
pub open spec fn chunk_px_x(x: int) -> int {
    x % (CHUNK_SIZE as int)
}

/// The row of `(x, y)` within its chunk.
pub open spec fn chunk_px_y(y: int) -> int {
    y % (CHUNK_SIZE as int)
}

/// Where `(x, y)` lies in the pixel buffer of its chunk.
pub open spec fn pixel_index(x: int, y: int) -> int {
    chunk_px_x(x) + chunk_px_y(y) * CHUNK_SIZE
}

/// The local column of the pixel in column `px_x` of chunk `ch`.
pub open spec fn local_x(ch: int, px_x: int) -> int {
    (ch % 3 - 1) * CHUNK_SIZE + px_x
}

/// The local row of the pixel in row `px_y` of chunk `ch`.
pub open spec fn local_y(ch: int, px_y: int) -> int {
    (ch / 3 - 1) * CHUNK_SIZE + px_y
}

/// Decoding a local coordinate and putting it together again gives the same
/// coordinate, and the parts lie in their ranges: a negative coordinate
/// belongs to the western or northern neighbour, counted from that chunk's
/// own origin.
pub proof fn lemma_decode_then_encode(x: int, y: int)
    requires
        in_halo(x, y),
    ensures
        0 <= chunk_index(x, y) < 9,
        0 <= chunk_px_x(x) < CHUNK_SIZE,
        0 <= chunk_px_y(y) < CHUNK_SIZE,
        0 <= pixel_index(x, y) < CHUNK_AREA,
        local_x(chunk_index(x, y), chunk_px_x(x)) == x,
        local_y(chunk_index(x, y), chunk_px_y(y)) == y,
        x < 0 <==> chunk_index(x, y) % 3 == 0,
        y < 0 <==> chunk_index(x, y) / 3 == 0,
        x >= CHUNK_SIZE <==> chunk_index(x, y) % 3 == 2,
        y >= CHUNK_SIZE <==> chunk_index(x, y) / 3 == 2,
{
}

/// Putting a chunk index and a position within the chunk together and
/// decoding the result gives the same parts back.
pub proof fn lemma_encode_then_decode(ch: int, px_x: int, px_y: int)
    requires
        0 <= ch < 9,
        0 <= px_x < CHUNK_SIZE,
        0 <= px_y < CHUNK_SIZE,
    ensures
        in_halo(local_x(ch, px_x), local_y(ch, px_y)),
        chunk_index(local_x(ch, px_x), local_y(ch, px_y)) == ch,
        chunk_px_x(local_x(ch, px_x)) == px_x,
        chunk_px_y(local_y(ch, px_y)) == px_y,
        pixel_index(local_x(ch, px_x), local_y(ch, px_y)) == px_x + px_y * CHUNK_SIZE,
{
}

/// Two coordinates that decode to the same chunk and the same place in it are
/// the same coordinate.
pub proof fn lemma_decoding_is_injective(x1: int, y1: int, x2: int, y2: int)
    requires
        in_halo(x1, y1),
        in_halo(x2, y2),
        chunk_index(x1, y1) == chunk_index(x2, y2),
        pixel_index(x1, y1) == pixel_index(x2, y2),
    ensures
        x1 == x2,
        y1 == y2,
{
}

/// The buffers of one chunk, lent to the simulator for one step.
#[derive(Debug)]
pub struct SimulatorChunkContext {
    /// `CHUNK_AREA` pixels, row by row.
    pub pixels: Vec<MaterialInstance>,
    /// Four colour bytes per pixel.
    pub colors: Vec<u8>,
    /// One light entry per pixel.
    pub lights: Vec<LightTexel>,
    /// Whether the colour buffer changed.
    pub dirty: bool,
    /// The region written since the rectangle was last consumed.
    pub dirty_rect: Option<Rect<i32>>,
}

/// A chunk context as mathematics.
pub struct ChunkView {
    pub pixels: Seq<MaterialInstance>,
    pub colors: Seq<u8>,
    pub lights: Seq<LightTexel>,
    pub dirty: bool,
    pub dirty_rect: Option<Rect<i32>>,
}

impl View for SimulatorChunkContext {
    type V = ChunkView;

    open spec fn view(&self) -> ChunkView {
        ChunkView {
            pixels: self.pixels@,
            colors: self.colors@,
            lights: self.lights@,
            dirty: self.dirty,
            dirty_rect: self.dirty_rect,
        }
    }
}

impl ChunkView {
    /// Every buffer has the length that goes with `CHUNK_AREA` pixels.
    pub open spec fn wf(self) -> bool {
        &&& self.pixels.len() == CHUNK_AREA
        &&& self.colors.len() == 4 * CHUNK_AREA
        &&& self.lights.len() == CHUNK_AREA
    }

    /// The colour stored for the pixel at `px`.
    pub open spec fn color_at(self, px: int) -> Color {
        Color {
            r: self.colors[4 * px],
            g: self.colors[4 * px + 1],
            b: self.colors[4 * px + 2],
            a: self.colors[4 * px + 3],
        }
    }

    /// The light triple stored for the pixel at `px`.
    pub open spec fn light_at(self, px: int) -> Light {
        Light { r: self.lights[px].r, g: self.lights[px].g, b: self.lights[px].b }
    }
}

/// The views of nine chunk contexts.
pub open spec fn views(a: Seq<SimulatorChunkContext>) -> Seq<ChunkView> {
    Seq::new(a.len(), |i: int| a[i]@)
}

/// The bounding box that four trackers stand for: nothing when no pixel was
/// recorded, else the smallest rectangle holding every recorded pixel.
pub open spec fn tight_rect(min_x: u16, min_y: u16, max_x: u16, max_y: u16) -> Option<Rect<i32>> {
    if min_x == CHUNK_SIZE + 1 {
        None
    } else {
        Some(
            Rect {
                x1: min_x as i32,
                y1: min_y as i32,
                x2: (max_x + 1) as i32,
                y2: (max_y + 1) as i32,
            },
        )
    }
}

/// Nine chunks, per chunk the bounds of what was written so far, and the
/// particles spawned: what a chunk helper stands for.
pub struct Neighborhood {
    pub chunks: Seq<ChunkView>,
    pub min_x: Seq<u16>,
    pub min_y: Seq<u16>,
    pub max_x: Seq<u16>,
    pub max_y: Seq<u16>,
    pub particles: Seq<Particle>,
    pub chunk_x: i32,
    pub chunk_y: i32,
}

impl Neighborhood {
    /// Whether chunk `ch` has not been written to.
    pub open spec fn untouched(self, ch: int) -> bool {
        &&& self.min_x[ch] == CHUNK_SIZE + 1
        &&& self.min_y[ch] == CHUNK_SIZE + 1
        &&& self.max_x[ch] == 0
        &&& self.max_y[ch] == 0
    }

    /// Whether the trackers of chunk `ch` bound a region inside the chunk.
    pub open spec fn bounded(self, ch: int) -> bool {
        &&& self.min_x[ch] <= self.max_x[ch] < CHUNK_SIZE
        &&& self.min_y[ch] <= self.max_y[ch] < CHUNK_SIZE
    }

    /// Nine chunks with buffers of the right lengths, and for every chunk
    /// trackers that bound either nothing or a region inside the chunk.
    pub open spec fn wf(self) -> bool {
        &&& self.chunks.len() == 9
        &&& self.min_x.len() == 9
        &&& self.min_y.len() == 9
        &&& self.max_x.len() == 9
        &&& self.max_y.len() == 9
        &&& forall|ch: int| 0 <= ch < 9 ==> (#[trigger] self.chunks[ch]).wf()
        &&& forall|ch: int| 0 <= ch < 9 ==> #[trigger] self.untouched(ch) || self.bounded(ch)
    }

    /// The pixel at `px` of chunk `ch`.
    pub open spec fn pixel_at(self, ch: int, px: int) -> MaterialInstance {
        self.chunks[ch].pixels[px]
    }

    /// A pixel is written, and the trackers of its chunk grow to hold it.
    pub open spec fn with_pixel_at(
        self,
        ch: int,
        px: int,
        ch_x: u16,
        ch_y: u16,
        mat: MaterialInstance,
    ) -> Neighborhood {
        Neighborhood {
            chunks: self.chunks.update(
                ch,
                ChunkView { pixels: self.chunks[ch].pixels.update(px, mat), ..self.chunks[ch] },
            ),
            min_x: self.min_x.update(ch, if ch_x < self.min_x[ch] { ch_x } else { self.min_x[ch] }),
            min_y: self.min_y.update(ch, if ch_y < self.min_y[ch] { ch_y } else { self.min_y[ch] }),
            max_x: self.max_x.update(ch, if ch_x > self.max_x[ch] { ch_x } else { self.max_x[ch] }),
            max_y: self.max_y.update(ch, if ch_y > self.max_y[ch] { ch_y } else { self.max_y[ch] }),
            ..self
        }
    }

    /// Four colour bytes are written, and the chunk is marked dirty.
    pub open spec fn with_color_at(self, ch: int, px: int, col: Color) -> Neighborhood {
        Neighborhood {
            chunks: self.chunks.update(
                ch,
                ChunkView {
                    colors: self.chunks[ch].colors.update(4 * px, col.r).update(
                        4 * px + 1,
                        col.g,
                    ).update(4 * px + 2, col.b).update(4 * px + 3, col.a),
                    dirty: true,
                    ..self.chunks[ch]
                },
            ),
            ..self
        }
    }

    /// A light triple is written, with the fourth channel at full.
    pub open spec fn with_light_at(self, ch: int, px: int, light: Light) -> Neighborhood {
        Neighborhood {
            chunks: self.chunks.update(
                ch,
                ChunkView {
                    lights: self.chunks[ch].lights.update(
                        px,
                        LightTexel { r: light.r, g: light.g, b: light.b, a: LIGHT_FULL },
                    ),
                    ..self.chunks[ch]
                },
            ),
            ..self
        }
    }

    /// A particle is spawned; its position is moved from the centre chunk's
    /// frame into the world's.
    pub open spec fn with_spawned(
        self,
        material: MaterialInstance,
        pos: Position,
        vel: Velocity,
    ) -> Neighborhood {
        Neighborhood {
            particles: self.particles.push(
                Particle {
                    material,
                    pos: Position {
                        x: (pos.x + self.chunk_x * CHUNK_SIZE) as i64,
                        y: (pos.y + self.chunk_y * CHUNK_SIZE) as i64,
                    },
                    vel,
                },
            ),
            ..self
        }
    }

    /// Every chunk's dirty rectangle is set to what its trackers bound.
    pub open spec fn finished(self) -> Neighborhood {
        Neighborhood {
            chunks: Seq::new(
                9,
                |i: int|
                    ChunkView {
                        dirty_rect: tight_rect(
                            self.min_x[i],
                            self.min_y[i],
                            self.max_x[i],
                            self.max_y[i],
                        ),
                        ..self.chunks[i]
                    },
            ),
            ..self
        }
    }
}

/// Whether an index tuple (chunk, pixel, column in chunk, row in chunk)
/// points into the buffers.
pub open spec fn valid_indices(i: (usize, usize, u16, u16)) -> bool {
    i.0 < 9 && i.1 < CHUNK_AREA && i.2 < CHUNK_SIZE && i.3 < CHUNK_SIZE
}

/// Access to nine chunks by local coordinates, with the bookkeeping of one
/// step: the bounds of what was written, and where particles go.
pub struct SimulationHelperChunk {
    pub chunk_data: [SimulatorChunkContext; 9],
    pub min_x: [u16; 9],
    pub min_y: [u16; 9],
    pub max_x: [u16; 9],
    pub max_y: [u16; 9],
    pub particles: Vec<Particle>,
    pub chunk_x: i32,
    pub chunk_y: i32,
}

impl View for SimulationHelperChunk {
    type V = Neighborhood;

    open spec fn view(&self) -> Neighborhood {
        Neighborhood {
            chunks: views(self.chunk_data@),
            min_x: self.min_x@,
            min_y: self.min_y@,
            max_x: self.max_x@,
            max_y: self.max_y@,
            particles: self.particles@,
            chunk_x: self.chunk_x,
            chunk_y: self.chunk_y,
        }
    }
}

impl SimulationHelperChunk {
    /// Decodes a local coordinate into (chunk index, pixel index, column in
    /// chunk, row in chunk).
    pub fn local_to_indices(x: i32, y: i32) -> (i: (usize, usize, u16, u16))
        requires
            in_halo(x as int, y as int),
        ensures
            i.0 == chunk_index(x as int, y as int),
            i.1 == pixel_index(x as int, y as int),
            i.2 == chunk_px_x(x as int),
            i.3 == chunk_px_y(y as int),
            valid_indices(i),
    {
        let size: i32 = CHUNK_SIZE as i32;
        let rel_chunk_x: i32 = match x.checked_div_euclid(size) {
            Some(q) => q,
            None => 0,
        };
        let rel_chunk_y: i32 = match y.checked_div_euclid(size) {
            Some(q) => q,
            None => 0,
        };
        let chunk_px_x: u16 = match x.checked_rem_euclid(size) {
            Some(r) => r as u16,
            None => 0,
        };
        let chunk_px_y: u16 = match y.checked_rem_euclid(size) {
            Some(r) => r as u16,
            None => 0,
        };

        (
            (rel_chunk_x + 1) as usize + (rel_chunk_y + 1) as usize * 3,
            (chunk_px_x + chunk_px_y * CHUNK_SIZE) as usize,
            chunk_px_x,
            chunk_px_y,
        )
    }

    /// The pixel that an index tuple points to.
    pub fn get_pixel_from_index(&self, i: (usize, usize, u16, u16)) -> (mat: MaterialInstance)
        requires
            self@.wf(),
            valid_indices(i),
        ensures
            mat == self@.pixel_at(i.0 as int, i.1 as int),
    {
        assert(self@.chunks[i.0 as int].wf());
        self.chunk_data[i.0].pixels[i.1]
    }

    /// A reference to the pixel that an index tuple points to.
    pub fn borrow_pixel_from_index(&self, i: (usize, usize, u16, u16)) -> (mat: &MaterialInstance)
        requires
            self@.wf(),
            valid_indices(i),
        ensures
            *mat == self@.pixel_at(i.0 as int, i.1 as int),
    {
        assert(self@.chunks[i.0 as int].wf());
        &self.chunk_data[i.0].pixels[i.1]
    }

    /// Replaces the pixel that an index tuple points to, and lets the
    /// trackers of its chunk grow to hold it.
    pub fn set_pixel_from_index(&mut self, i: (usize, usize, u16, u16), mat: MaterialInstance)
        requires
            old(self)@.wf(),
            valid_indices(i),
        ensures
            final(self)@.wf(),
            final(self)@ == old(self)@.with_pixel_at(i.0 as int, i.1 as int, i.2, i.3, mat),
    {
        let ch = i.0;
        let px = i.1;
        let ch_x = i.2;
        let ch_y = i.3;
        assert(self@.chunks[ch as int].wf());
        self.chunk_data[ch].pixels[px] = mat;

        if ch_x < self.min_x[ch] {
            self.min_x[ch] = ch_x;
        }
        if ch_y < self.min_y[ch] {
            self.min_y[ch] = ch_y;
        }
        if ch_x > self.max_x[ch] {
            self.max_x[ch] = ch_x;
        }
        if ch_y > self.max_y[ch] {
            self.max_y[ch] = ch_y;
        }
        proof {
            let want = old(self)@.with_pixel_at(ch as int, px as int, ch_x, ch_y, mat);
            assert(self@.chunks =~= want.chunks);
            assert(self@.min_x =~= want.min_x);
            assert(self@.min_y =~= want.min_y);
            assert(self@.max_x =~= want.max_x);
            assert(self@.max_y =~= want.max_y);
            assert(old(self)@.untouched(ch as int) || old(self)@.bounded(ch as int));
            assert forall|c: int| 0 <= c < 9 implies #[trigger] self@.untouched(c)
                || self@.bounded(c) by {
                assert(old(self)@.untouched(c) || old(self)@.bounded(c));
            }
        }
    }

    /// The colour stored for the pixel that an index tuple points to.
    pub fn get_color_from_index(&self, i: (usize, usize, u16, u16)) -> (col: Color)
        requires
            self@.wf(),
            valid_indices(i),
        ensures
            col == self@.chunks[i.0 as int].color_at(i.1 as int),
    {
        let ch = i.0;
        let px = i.1;
        assert(self@.chunks[ch as int].wf());
        Color::rgba(
            self.chunk_data[ch].colors[px * 4],
            self.chunk_data[ch].colors[px * 4 + 1],
            self.chunk_data[ch].colors[px * 4 + 2],
            self.chunk_data[ch].colors[px * 4 + 3],
        )
    }

    /// Stores a colour for the pixel that an index tuple points to, and
    /// marks the chunk dirty.
    pub fn set_color_from_index(&mut self, i: (usize, usize, u16, u16), color: Color)
        requires
            old(self)@.wf(),
            valid_indices(i),
        ensures
            final(self)@.wf(),
            final(self)@ == old(self)@.with_color_at(i.0 as int, i.1 as int, color),
    {
        let ch = i.0;
        let px = i.1;
        assert(self@.chunks[ch as int].wf());
        self.chunk_data[ch].colors[px * 4] = color.r;
        self.chunk_data[ch].colors[px * 4 + 1] = color.g;
        self.chunk_data[ch].colors[px * 4 + 2] = color.b;
        self.chunk_data[ch].colors[px * 4 + 3] = color.a;

        self.chunk_data[ch].dirty = true;
        proof {
            let want = old(self)@.with_color_at(ch as int, px as int, color);
            assert(self@.chunks[ch as int].colors =~= want.chunks[ch as int].colors);
            assert(self@.chunks =~= want.chunks);
            assert forall|c: int| 0 <= c < 9 implies #[trigger] self@.untouched(c)
                || self@.bounded(c) by {
                assert(old(self)@.untouched(c) || old(self)@.bounded(c));
            }
        }
    }

    /// The light stored for the pixel that an index tuple points to.
    pub fn get_light_from_index(&self, i: (usize, usize, u16, u16)) -> (light: Light)
        requires
            self@.wf(),
            valid_indices(i),
        ensures
            light == self@.chunks[i.0 as int].light_at(i.1 as int),
    {
        assert(self@.chunks[i.0 as int].wf());
        let texel = self.chunk_data[i.0].lights[i.1];
        Light { r: texel.r, g: texel.g, b: texel.b }
    }

    /// Stores a light for the pixel that an index tuple points to, with the
    /// fourth channel at full.
    pub fn set_light_from_index(&mut self, i: (usize, usize, u16, u16), light: Light)
        requires
            old(self)@.wf(),
            valid_indices(i),
        ensures
            final(self)@.wf(),
            final(self)@ == old(self)@.with_light_at(i.0 as int, i.1 as int, light),
    {
        let ch = i.0;
        let px = i.1;
        assert(self@.chunks[ch as int].wf());
        self.chunk_data[ch].lights[px] = LightTexel {
            r: light.r,
            g: light.g,
            b: light.b,
            a: LIGHT_FULL,
        };
        proof {
            let want = old(self)@.with_light_at(ch as int, px as int, light);
            assert(self@.chunks =~= want.chunks);
            assert forall|c: int| 0 <= c < 9 implies #[trigger] self@.untouched(c)
                || self@.bounded(c) by {
                assert(old(self)@.untouched(c) || old(self)@.bounded(c));
            }
        }
    }

    /// Turns the trackers of each chunk into its dirty rectangle.
    pub fn finish_dirty_rects(&mut self)
        requires
            old(self)@.wf(),
        ensures
            final(self)@.wf(),
            final(self)@ == old(self)@.finished(),
    {
        let mut i: usize = 0;
        while i < 9
            invariant
                0 <= i <= 9,
                old(self)@.wf(),
                self@.wf(),
                self@.min_x == old(self)@.min_x,
                self@.min_y == old(self)@.min_y,
                self@.max_x == old(self)@.max_x,
                self@.max_y == old(self)@.max_y,
                self@.particles == old(self)@.particles,
                self.chunk_x == old(self).chunk_x,
                self.chunk_y == old(self).chunk_y,
                forall|k: int| 0 <= k < i ==> self@.chunks[k] == old(self)@.finished().chunks[k],
                forall|k: int| i <= k < 9 ==> self@.chunks[k] == old(self)@.chunks[k],
            decreases 9 - i,
        {
            let ghost before = self@;
            proof {
                assert(self@.untouched(i as int) || self@.bounded(i as int));
            }
            if self.min_x[i] == CHUNK_SIZE + 1 {
                self.chunk_data[i].dirty_rect = None;
            } else {
                self.chunk_data[i].dirty_rect = Some(
                    Rect::<i32>::new_wh(
                        self.min_x[i] as i32,
                        self.min_y[i] as i32,
                        self.max_x[i] - self.min_x[i] + 1,
                        self.max_y[i] - self.min_y[i] + 1,
                    ),
                );
            }
            proof {
                assert forall|c: int| 0 <= c < 9 implies #[trigger] self@.untouched(c)
                    || self@.bounded(c) by {
                    assert(before.untouched(c) || before.bounded(c));
                }
                assert forall|c: int| 0 <= c < 9 implies (#[trigger] self@.chunks[c]).wf() by {
                    assert(before.chunks[c].wf());
                }
                assert(before.chunks[i as int] == old(self)@.chunks[i as int]);
                assert(self@.chunks[i as int].dirty_rect == tight_rect(
                    self.min_x[i as int],
                    self.min_y[i as int],
                    self.max_x[i as int],
                    self.max_y[i as int],
                ));
                assert(self@.chunks[i as int] == old(self)@.finished().chunks[i as int]);
                assert forall|k: int| 0 <= k < i implies self@.chunks[k] == old(
                    self,
                )@.finished().chunks[k] by {
                    assert(self@.chunks[k] == before.chunks[k]);
                }
            }
            i += 1;
        }
        proof {
            assert(self@.chunks =~= old(self)@.finished().chunks);
        }
    }
}

impl SimulationHelper for SimulationHelperChunk {
    type Model = Neighborhood;

    open spec fn model(&self) -> Neighborhood {
        self@
    }

    open spec fn inv(&self) -> bool {
        self@.wf()
    }

    open spec fn in_reach(x: int, y: int) -> bool {
        in_halo(x, y)
    }

    open spec fn pixel(m: Neighborhood, x: int, y: int) -> MaterialInstance {
        m.pixel_at(chunk_index(x, y), pixel_index(x, y))
    }

    open spec fn color(m: Neighborhood, x: int, y: int) -> Color {
        m.chunks[chunk_index(x, y)].color_at(pixel_index(x, y))
    }

    open spec fn light(m: Neighborhood, x: int, y: int) -> Light {
        m.chunks[chunk_index(x, y)].light_at(pixel_index(x, y))
    }

    open spec fn put_pixel(m: Neighborhood, x: int, y: int, mat: MaterialInstance) -> Neighborhood {
        m.with_pixel_at(
            chunk_index(x, y),
            pixel_index(x, y),
            chunk_px_x(x) as u16,
            chunk_px_y(y) as u16,
            mat,
        )
    }

    open spec fn put_color(m: Neighborhood, x: int, y: int, col: Color) -> Neighborhood {
        m.with_color_at(chunk_index(x, y), pixel_index(x, y), col)
    }

    open spec fn put_light(m: Neighborhood, x: int, y: int, light: Light) -> Neighborhood {
        m.with_light_at(chunk_index(x, y), pixel_index(x, y), light)
    }

    open spec fn with_particle(
        m: Neighborhood,
        material: MaterialInstance,
        pos: Position,
        vel: Velocity,
    ) -> Neighborhood {
        m.with_spawned(material, pos, vel)
    }

    fn get_pixel_local(&self, x: i32, y: i32) -> (mat: MaterialInstance) {
        self.get_pixel_from_index(Self::local_to_indices(x, y))
    }

    fn borrow_pixel_local(&self, x: i32, y: i32) -> (mat: &MaterialInstance) {
        self.borrow_pixel_from_index(Self::local_to_indices(x, y))
    }

    fn set_pixel_local(&mut self, x: i32, y: i32, mat: MaterialInstance) {
        self.set_pixel_from_index(Self::local_to_indices(x, y), mat);
    }

    fn get_color_local(&self, x: i32, y: i32) -> (col: Color) {
        self.get_color_from_index(Self::local_to_indices(x, y))
    }

    fn set_color_local(&mut self, x: i32, y: i32, col: Color) {
        self.set_color_from_index(Self::local_to_indices(x, y), col);
    }

    fn get_light_local(&self, x: i32, y: i32) -> (light: Light) {
        self.get_light_from_index(Self::local_to_indices(x, y))
    }

    fn set_light_local(&mut self, x: i32, y: i32, light: Light) {
        self.set_light_from_index(Self::local_to_indices(x, y), light);
    }

    fn add_particle(&mut self, material: MaterialInstance, pos: Position, vel: Velocity) {
        let shifted = Position {
            x: pos.x + (self.chunk_x as i64) * (CHUNK_SIZE as i64),
            y: pos.y + (self.chunk_y as i64) * (CHUNK_SIZE as i64),
        };
        self.particles.push(Particle::new(material, shifted, vel));
        proof {
            assert forall|c: int| 0 <= c < 9 implies #[trigger] self@.untouched(c)
                || self@.bounded(c) by {
                assert(old(self)@.untouched(c) || old(self)@.bounded(c));
            }
        }
    }
}

} // verus!
