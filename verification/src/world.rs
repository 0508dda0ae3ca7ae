//! The loaded chunks of the world, looked up by chunk coordinates.

use vstd::prelude::*;
use crate::chunk::{CHUNK_AREA, CHUNK_SIZE};
use crate::material::{Color, MaterialInstance};

verus! {

/// One loaded chunk: where it lies, its pixels and its colour bytes.
#[derive(Debug)]
pub struct WorldChunk {
    pub chunk_x: i32,
    pub chunk_y: i32,
    /// `CHUNK_AREA` pixels, row by row.
    pub pixels: Vec<MaterialInstance>,
    /// Four colour bytes per pixel.
    pub colors: Vec<u8>,
}

impl WorldChunk {
    /// Both buffers have the length that goes with `CHUNK_AREA` pixels.
    pub open spec fn wf(self) -> bool {
        self.pixels@.len() == CHUNK_AREA && self.colors@.len() == 4 * CHUNK_AREA
    }

    /// The colour stored for the pixel at `px`.
    pub open spec fn color_at(self, px: int) -> Color {
        Color {
            r: self.colors@[4 * px],
            g: self.colors@[4 * px + 1],
            b: self.colors@[4 * px + 2],
            a: self.colors@[4 * px + 3],
        }
    }

    /// The colour of the pixel in column `x` and row `y` of the chunk, if
    /// there is such a pixel.
    pub fn get_color(&self, x: u16, y: u16) -> (col: Option<Color>)
        requires
            self.wf(),
        ensures
            col == if x < CHUNK_SIZE && y < CHUNK_SIZE {
                Some(self.color_at(x + y * CHUNK_SIZE))
            } else {
                None
            },
    {
        if x < CHUNK_SIZE && y < CHUNK_SIZE {
            let px: usize = x as usize + y as usize * CHUNK_SIZE as usize;
            Some(
                Color::rgba(
                    self.colors[px * 4],
                    self.colors[px * 4 + 1],
                    self.colors[px * 4 + 2],
                    self.colors[px * 4 + 3],
                ),
            )
        } else {
            None
        }
    }
}

/// The chunks that are loaded.
#[derive(Debug)]
pub struct ChunkHandler {
    pub loaded_chunks: Vec<WorldChunk>,
}

/// Whether a pixel coordinate belongs to a chunk whose own coordinate fits
/// its type.
pub open spec fn addressable(v: int) -> bool {
    i32::MIN * CHUNK_SIZE <= v < (i32::MAX + 1) * CHUNK_SIZE
}

/// The index of the first chunk at `(chunk_x, chunk_y)` among those from
/// `from` on, if there is one.
pub open spec fn find_chunk(chunks: Seq<WorldChunk>, chunk_x: int, chunk_y: int, from: int) -> Option<
    int,
>
    decreases chunks.len() - from,
{
    if from < 0 || from >= chunks.len() {
        None
    } else if chunks[from].chunk_x == chunk_x && chunks[from].chunk_y == chunk_y {
        Some(from)
    } else {
        find_chunk(chunks, chunk_x, chunk_y, from + 1)
    }
}

/// A chunk that was found is one of the chunks, and lies where it was looked
/// for.
pub proof fn lemma_found_chunk_is_loaded(
    chunks: Seq<WorldChunk>,
    chunk_x: int,
    chunk_y: int,
    from: int,
)
    requires
        0 <= from,
    ensures
        find_chunk(chunks, chunk_x, chunk_y, from) matches Some(i) ==> from <= i < chunks.len()
            && chunks[i].chunk_x == chunk_x && chunks[i].chunk_y == chunk_y,
    decreases chunks.len() - from,
{
    if from < chunks.len() && !(chunks[from].chunk_x == chunk_x && chunks[from].chunk_y
        == chunk_y) {
        lemma_found_chunk_is_loaded(chunks, chunk_x, chunk_y, from + 1);
    }
}

/// The world pixel at `(x, y)`, if its chunk is loaded.
pub open spec fn world_pixel(chunks: Seq<WorldChunk>, x: int, y: int) -> Option<MaterialInstance> {
    match find_chunk(chunks, x / (CHUNK_SIZE as int), y / (CHUNK_SIZE as int), 0) {
        Some(i) => Some(
            chunks[i].pixels@[x % (CHUNK_SIZE as int) + (y % (CHUNK_SIZE as int)) * CHUNK_SIZE],
        ),
        None => None,
    }
}

/// The colour of the world pixel at `(x, y)`, if its chunk is loaded.
pub open spec fn world_color(chunks: Seq<WorldChunk>, x: int, y: int) -> Option<Color> {
    match find_chunk(chunks, x / (CHUNK_SIZE as int), y / (CHUNK_SIZE as int), 0) {
        Some(i) => Some(
            chunks[i].color_at(x % (CHUNK_SIZE as int) + (y % (CHUNK_SIZE as int)) * CHUNK_SIZE),
        ),
        None => None,
    }
}

/// The coordinates of the chunk that holds the pixel `(x, y)`, by floor
/// division.
pub fn pixel_to_chunk_pos(x: i64, y: i64) -> (p: (i32, i32))
    requires
        addressable(x as int),
        addressable(y as int),
    ensures
        p.0 == (x as int) / (CHUNK_SIZE as int),
        p.1 == (y as int) / (CHUNK_SIZE as int),
{
    let size: i64 = CHUNK_SIZE as i64;
    let cx: i64 = match x.checked_div_euclid(size) {
        Some(q) => q,
        None => 0,
    };
    let cy: i64 = match y.checked_div_euclid(size) {
        Some(q) => q,
        None => 0,
    };
    (cx as i32, cy as i32)
}

impl ChunkHandler {
    /// Every loaded chunk has buffers of the right lengths.
    pub open spec fn wf(self) -> bool {
        forall|i: int| 0 <= i < self.loaded_chunks@.len() ==> (#[trigger] self.loaded_chunks@[i]).wf()
    }

    /// The first loaded chunk at the given chunk coordinates.
    pub fn get_chunk(&self, chunk_x: i32, chunk_y: i32) -> (found: Option<&WorldChunk>)
        ensures
            match find_chunk(self.loaded_chunks@, chunk_x as int, chunk_y as int, 0) {
                Some(i) => found == Some(&self.loaded_chunks@[i]),
                None => found is None,
            },
    {
        let mut i: usize = 0;
        while i < self.loaded_chunks.len()
            invariant
                0 <= i <= self.loaded_chunks@.len(),
                find_chunk(self.loaded_chunks@, chunk_x as int, chunk_y as int, 0) == find_chunk(
                    self.loaded_chunks@,
                    chunk_x as int,
                    chunk_y as int,
                    i as int,
                ),
            decreases self.loaded_chunks@.len() - i,
        {
            if self.loaded_chunks[i].chunk_x == chunk_x && self.loaded_chunks[i].chunk_y == chunk_y {
                return Some(&self.loaded_chunks[i]);
            }
            i += 1;
        }
        None
    }

    /// The world pixel at `(x, y)`, if its chunk is loaded.
    pub fn get(&self, x: i64, y: i64) -> (mat: Option<&MaterialInstance>)
        requires
            self.wf(),
            addressable(x as int),
            addressable(y as int),
        ensures
            match mat {
                Some(m) => world_pixel(self.loaded_chunks@, x as int, y as int) == Some(*m),
                None => world_pixel(self.loaded_chunks@, x as int, y as int) is None,
            },
    {
        let (chunk_x, chunk_y) = pixel_to_chunk_pos(x, y);
        proof {
            lemma_found_chunk_is_loaded(self.loaded_chunks@, chunk_x as int, chunk_y as int, 0);
        }
        match self.get_chunk(chunk_x, chunk_y) {
            Some(ch) => {
                let px_x: i64 = x - chunk_x as i64 * CHUNK_SIZE as i64;
                let px_y: i64 = y - chunk_y as i64 * CHUNK_SIZE as i64;
                Some(&ch.pixels[(px_x + px_y * CHUNK_SIZE as i64) as usize])
            },
            None => None,
        }
    }

    /// The colour of the world pixel at `(x, y)`, if its chunk is loaded.
    pub fn get_color(&self, x: i64, y: i64) -> (col: Option<Color>)
        requires
            self.wf(),
            addressable(x as int),
            addressable(y as int),
        ensures
            col == world_color(self.loaded_chunks@, x as int, y as int),
    {
        let (chunk_x, chunk_y) = pixel_to_chunk_pos(x, y);
        proof {
            lemma_found_chunk_is_loaded(self.loaded_chunks@, chunk_x as int, chunk_y as int, 0);
        }
        match self.get_chunk(chunk_x, chunk_y) {
            Some(ch) => {
                let px_x: i64 = x - chunk_x as i64 * CHUNK_SIZE as i64;
                let px_y: i64 = y - chunk_y as i64 * CHUNK_SIZE as i64;
                ch.get_color(px_x as u16, px_y as u16)
            },
            None => None,
        }
    }
}

} // verus!
