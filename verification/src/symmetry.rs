//! Left and right are treated alike: a step over the mirror image of a
//! neighbourhood, scanned the other way with the mirrored draws, gives the
//! mirror image of what the step gives.

use vstd::prelude::*;
use crate::chunk::{
    CHUNK_SIZE, Neighborhood, SimulationHelperChunk, chunk_index, chunk_px_x, in_halo,
    lemma_decode_then_encode, lemma_decoding_is_injective, pixel_index,
};
use crate::helper::{SimulationHelper, left_behind, move_of, moved, placed, surroundings};
use crate::material::{Color, Light, MaterialInstance};
use crate::particle::{Particle, Position};
use crate::rect::Rect;
use crate::rule::{
    Draws, Move, Velocity, lemma_moves_go_down_into_open_cells, lemma_rule_is_mirror_symmetric,
    launch_velocity, mirror_draws, mirror_move, mirror_surroundings,
};
use crate::scan::{column, processed, scanned, scanned_row, stepped};

verus! {

/// The mirror image of a local column.
pub open spec fn flip_x(x: int) -> int {
    CHUNK_SIZE - 1 - x
}

/// The mirror image of a chunk index: the western and eastern neighbours
/// change places.
pub open spec fn flip_chunk(ch: int) -> int {
    ch + 2 - 2 * (ch % 3)
}

/// The mirror image of a rectangle of the centre chunk.
pub open spec fn flip_rect(r: Rect<i32>) -> Rect<i32> {
    Rect { x1: (CHUNK_SIZE - r.x2) as i32, x2: (CHUNK_SIZE - r.x1) as i32, ..r }
}

/// The mirror image of a table of draws: every set of draws is mirrored.
pub open spec fn flip_table(table: Seq<Seq<Draws>>) -> Seq<Seq<Draws>> {
    Seq::new(
        table.len(),
        |j: int| Seq::new(table[j].len(), |k: int| mirror_draws(table[j][k])),
    )
}

/// The mirror image of a particle spawned from the chunk in column
/// `chunk_x` of the world: its position is mirrored, its velocity kept.
pub open spec fn flip_particle(p: Particle, chunk_x: i32) -> Particle {
    Particle {
        pos: Position { x: (2 * chunk_x * CHUNK_SIZE + CHUNK_SIZE - 1 - p.pos.x) as i64, ..p.pos },
        ..p
    }
}

/// Whether `b` holds at the mirror image of `(x, y)` what `a` holds at
/// `(x, y)`: pixel, colour bytes and light entry.
pub open spec fn cell_mirrored(a: Neighborhood, b: Neighborhood, x: int, y: int) -> bool {
    let ch = chunk_index(x, y);
    let px = pixel_index(x, y);
    let fch = chunk_index(flip_x(x), y);
    let fpx = pixel_index(flip_x(x), y);
    &&& b.chunks[fch].pixels[fpx] == a.chunks[ch].pixels[px]
    &&& b.chunks[fch].lights[fpx] == a.chunks[ch].lights[px]
    &&& b.chunks[fch].colors[4 * fpx] == a.chunks[ch].colors[4 * px]
    &&& b.chunks[fch].colors[4 * fpx + 1] == a.chunks[ch].colors[4 * px + 1]
    &&& b.chunks[fch].colors[4 * fpx + 2] == a.chunks[ch].colors[4 * px + 2]
    &&& b.chunks[fch].colors[4 * fpx + 3] == a.chunks[ch].colors[4 * px + 3]
}

/// Whether the bookkeeping of chunk `ch` in `a` is mirrored by that of the
/// mirrored chunk in `b`.
pub open spec fn chunk_mirrored(a: Neighborhood, b: Neighborhood, ch: int) -> bool {
    let fch = flip_chunk(ch);
    &&& b.chunks[fch].dirty == a.chunks[ch].dirty
    &&& b.chunks[fch].dirty_rect == match a.chunks[ch].dirty_rect {
        Some(r) => Some(flip_rect(r)),
        None => None,
    }
    &&& b.min_y[fch] == a.min_y[ch]
    &&& b.max_y[fch] == a.max_y[ch]
    &&& if a.untouched(ch) {
        b.untouched(fch)
    } else {
        &&& a.bounded(ch)
        &&& b.bounded(fch)
        &&& b.min_x[fch] == CHUNK_SIZE - 1 - a.max_x[ch]
        &&& b.max_x[fch] == CHUNK_SIZE - 1 - a.min_x[ch]
    }
}

/// Whether `b` is the mirror image of `a`.
pub open spec fn mirrored(a: Neighborhood, b: Neighborhood) -> bool {
    &&& a.wf()
    &&& b.wf()
    &&& a.chunk_x == b.chunk_x
    &&& a.chunk_y == b.chunk_y
    &&& forall|x: int, y: int| in_halo(x, y) ==> #[trigger] cell_mirrored(a, b, x, y)
    &&& forall|ch: int| 0 <= ch < 9 ==> #[trigger] chunk_mirrored(a, b, ch)
    &&& a.particles.len() == b.particles.len()
    &&& forall|i: int|
        0 <= i < a.particles.len() ==> #[trigger] b.particles[i] == flip_particle(
            a.particles[i],
            a.chunk_x,
        )
}

/// Mirroring keeps a coordinate in the neighbourhood, moves it to the
/// mirrored chunk and column, and keeps its row.
pub proof fn lemma_flip_decodes(x: int, y: int)
    requires
        in_halo(x, y),
    ensures
        in_halo(flip_x(x), y),
        flip_x(flip_x(x)) == x,
        chunk_index(flip_x(x), y) == flip_chunk(chunk_index(x, y)),
        chunk_px_x(flip_x(x)) == CHUNK_SIZE - 1 - chunk_px_x(x),
        0 <= chunk_index(x, y) < 9,
        0 <= flip_chunk(chunk_index(x, y)) < 9,
{
}

/// Mirroring chunk indices twice gives the index back.
pub proof fn lemma_flip_chunk_twice(ch: int)
    requires
        0 <= ch < 9,
    ensures
        0 <= flip_chunk(ch) < 9,
        flip_chunk(flip_chunk(ch)) == ch,
{
}

/// Writing the same pixel at mirrored places keeps two neighbourhoods
/// mirror images of each other.
pub proof fn lemma_put_pixel_mirrored(
    a: Neighborhood,
    b: Neighborhood,
    x: int,
    y: int,
    mat: MaterialInstance,
)
    requires
        mirrored(a, b),
        in_halo(x, y),
    ensures
        mirrored(
            SimulationHelperChunk::put_pixel(a, x, y, mat),
            SimulationHelperChunk::put_pixel(b, flip_x(x), y, mat),
        ),
{
    let a2 = SimulationHelperChunk::put_pixel(a, x, y, mat);
    let b2 = SimulationHelperChunk::put_pixel(b, flip_x(x), y, mat);
    let ch = chunk_index(x, y);
    let fch = chunk_index(flip_x(x), y);
    lemma_flip_decodes(x, y);
    lemma_decode_then_encode(x, y);
    lemma_decode_then_encode(flip_x(x), y);
    assert(chunk_mirrored(a, b, ch));
    assert(a.untouched(ch) || a.bounded(ch));
    assert(b.untouched(fch) || b.bounded(fch));
    assert forall|c: int| 0 <= c < 9 implies (#[trigger] a2.chunks[c]).wf() by {
        assert(a.chunks[c].wf());
    }
    assert forall|c: int| 0 <= c < 9 implies #[trigger] a2.untouched(c) || a2.bounded(c) by {
        assert(a.untouched(c) || a.bounded(c));
    }
    assert forall|c: int| 0 <= c < 9 implies (#[trigger] b2.chunks[c]).wf() by {
        assert(b.chunks[c].wf());
    }
    assert forall|c: int| 0 <= c < 9 implies #[trigger] b2.untouched(c) || b2.bounded(c) by {
        assert(b.untouched(c) || b.bounded(c));
    }
    assert forall|x2: int, y2: int| in_halo(x2, y2) implies #[trigger] cell_mirrored(
        a2,
        b2,
        x2,
        y2,
    ) by {
        assert(cell_mirrored(a, b, x2, y2));
        lemma_flip_decodes(x2, y2);
        lemma_decode_then_encode(x2, y2);
        lemma_decode_then_encode(flip_x(x2), y2);
        if chunk_index(x2, y2) == ch && pixel_index(x2, y2) == pixel_index(x, y) {
            lemma_decoding_is_injective(x, y, x2, y2);
        }
        if chunk_index(flip_x(x2), y2) == fch && pixel_index(flip_x(x2), y2) == pixel_index(
            flip_x(x),
            y,
        ) {
            lemma_decoding_is_injective(flip_x(x), y, flip_x(x2), y2);
        }
    }
    assert forall|c: int| 0 <= c < 9 implies #[trigger] chunk_mirrored(a2, b2, c) by {
        assert(chunk_mirrored(a, b, c));
        lemma_flip_chunk_twice(c);
        lemma_flip_chunk_twice(ch);
    }
    assert(a2.wf());
    assert(b2.wf());
    assert forall|i: int| 0 <= i < a2.particles.len() implies #[trigger] b2.particles[i]
        == flip_particle(a2.particles[i], a2.chunk_x) by {
        assert(b.particles[i] == flip_particle(a.particles[i], a.chunk_x));
    }
}

/// Writing the same colour at mirrored places keeps two neighbourhoods
/// mirror images of each other.
pub proof fn lemma_put_color_mirrored(a: Neighborhood, b: Neighborhood, x: int, y: int, col: Color)
    requires
        mirrored(a, b),
        in_halo(x, y),
    ensures
        mirrored(
            SimulationHelperChunk::put_color(a, x, y, col),
            SimulationHelperChunk::put_color(b, flip_x(x), y, col),
        ),
{
    let a2 = SimulationHelperChunk::put_color(a, x, y, col);
    let b2 = SimulationHelperChunk::put_color(b, flip_x(x), y, col);
    let ch = chunk_index(x, y);
    let fch = chunk_index(flip_x(x), y);
    lemma_flip_decodes(x, y);
    lemma_decode_then_encode(x, y);
    lemma_decode_then_encode(flip_x(x), y);
    assert(a.chunks[ch].wf());
    assert(b.chunks[fch].wf());
    assert forall|c: int| 0 <= c < 9 implies (#[trigger] a2.chunks[c]).wf() by {
        assert(a.chunks[c].wf());
    }
    assert forall|c: int| 0 <= c < 9 implies #[trigger] a2.untouched(c) || a2.bounded(c) by {
        assert(a.untouched(c) || a.bounded(c));
    }
    assert forall|c: int| 0 <= c < 9 implies (#[trigger] b2.chunks[c]).wf() by {
        assert(b.chunks[c].wf());
    }
    assert forall|c: int| 0 <= c < 9 implies #[trigger] b2.untouched(c) || b2.bounded(c) by {
        assert(b.untouched(c) || b.bounded(c));
    }
    assert forall|x2: int, y2: int| in_halo(x2, y2) implies #[trigger] cell_mirrored(
        a2,
        b2,
        x2,
        y2,
    ) by {
        assert(cell_mirrored(a, b, x2, y2));
        lemma_flip_decodes(x2, y2);
        lemma_decode_then_encode(x2, y2);
        lemma_decode_then_encode(flip_x(x2), y2);
        assert(a.chunks[chunk_index(x2, y2)].wf());
        assert(b.chunks[chunk_index(flip_x(x2), y2)].wf());
        if chunk_index(x2, y2) == ch && pixel_index(x2, y2) == pixel_index(x, y) {
            lemma_decoding_is_injective(x, y, x2, y2);
        }
        if chunk_index(flip_x(x2), y2) == fch && pixel_index(flip_x(x2), y2) == pixel_index(
            flip_x(x),
            y,
        ) {
            lemma_decoding_is_injective(flip_x(x), y, flip_x(x2), y2);
        }
    }
    assert forall|c: int| 0 <= c < 9 implies #[trigger] chunk_mirrored(a2, b2, c) by {
        assert(chunk_mirrored(a, b, c));
        lemma_flip_chunk_twice(c);
        lemma_flip_chunk_twice(ch);
    }
    assert(a2.wf());
    assert(b2.wf());
    assert forall|i: int| 0 <= i < a2.particles.len() implies #[trigger] b2.particles[i]
        == flip_particle(a2.particles[i], a2.chunk_x) by {
        assert(b.particles[i] == flip_particle(a.particles[i], a.chunk_x));
    }
}

/// Writing the same light at mirrored places keeps two neighbourhoods
/// mirror images of each other.
pub proof fn lemma_put_light_mirrored(a: Neighborhood, b: Neighborhood, x: int, y: int, light: Light)
    requires
        mirrored(a, b),
        in_halo(x, y),
    ensures
        mirrored(
            SimulationHelperChunk::put_light(a, x, y, light),
            SimulationHelperChunk::put_light(b, flip_x(x), y, light),
        ),
{
    let a2 = SimulationHelperChunk::put_light(a, x, y, light);
    let b2 = SimulationHelperChunk::put_light(b, flip_x(x), y, light);
    let ch = chunk_index(x, y);
    let fch = chunk_index(flip_x(x), y);
    lemma_flip_decodes(x, y);
    lemma_decode_then_encode(x, y);
    lemma_decode_then_encode(flip_x(x), y);
    assert(a.chunks[ch].wf());
    assert(b.chunks[fch].wf());
    assert forall|c: int| 0 <= c < 9 implies (#[trigger] a2.chunks[c]).wf() by {
        assert(a.chunks[c].wf());
    }
    assert forall|c: int| 0 <= c < 9 implies #[trigger] a2.untouched(c) || a2.bounded(c) by {
        assert(a.untouched(c) || a.bounded(c));
    }
    assert forall|c: int| 0 <= c < 9 implies (#[trigger] b2.chunks[c]).wf() by {
        assert(b.chunks[c].wf());
    }
    assert forall|c: int| 0 <= c < 9 implies #[trigger] b2.untouched(c) || b2.bounded(c) by {
        assert(b.untouched(c) || b.bounded(c));
    }
    assert forall|x2: int, y2: int| in_halo(x2, y2) implies #[trigger] cell_mirrored(
        a2,
        b2,
        x2,
        y2,
    ) by {
        assert(cell_mirrored(a, b, x2, y2));
        lemma_flip_decodes(x2, y2);
        lemma_decode_then_encode(x2, y2);
        lemma_decode_then_encode(flip_x(x2), y2);
        if chunk_index(x2, y2) == ch && pixel_index(x2, y2) == pixel_index(x, y) {
            lemma_decoding_is_injective(x, y, x2, y2);
        }
        if chunk_index(flip_x(x2), y2) == fch && pixel_index(flip_x(x2), y2) == pixel_index(
            flip_x(x),
            y,
        ) {
            lemma_decoding_is_injective(flip_x(x), y, flip_x(x2), y2);
        }
    }
    assert forall|c: int| 0 <= c < 9 implies #[trigger] chunk_mirrored(a2, b2, c) by {
        assert(chunk_mirrored(a, b, c));
        lemma_flip_chunk_twice(c);
        lemma_flip_chunk_twice(ch);
    }
    assert(a2.wf());
    assert(b2.wf());
    assert forall|i: int| 0 <= i < a2.particles.len() implies #[trigger] b2.particles[i]
        == flip_particle(a2.particles[i], a2.chunk_x) by {
        assert(b.particles[i] == flip_particle(a.particles[i], a.chunk_x));
    }
}

/// Writing the same pixel with its colour and light at mirrored places
/// keeps two neighbourhoods mirror images of each other.
pub proof fn lemma_placed_mirrored(
    a: Neighborhood,
    b: Neighborhood,
    x: int,
    y: int,
    mat: MaterialInstance,
)
    requires
        mirrored(a, b),
        in_halo(x, y),
    ensures
        mirrored(
            placed::<SimulationHelperChunk>(a, x, y, mat),
            placed::<SimulationHelperChunk>(b, flip_x(x), y, mat),
        ),
{
    lemma_put_color_mirrored(a, b, x, y, mat.color);
    let a1 = SimulationHelperChunk::put_color(a, x, y, mat.color);
    let b1 = SimulationHelperChunk::put_color(b, flip_x(x), y, mat.color);
    lemma_put_light_mirrored(a1, b1, x, y, mat.light);
    let a2 = SimulationHelperChunk::put_light(a1, x, y, mat.light);
    let b2 = SimulationHelperChunk::put_light(b1, flip_x(x), y, mat.light);
    lemma_put_pixel_mirrored(a2, b2, x, y, mat);
}

/// In the mirror image a pixel is surrounded by the mirror image of what
/// surrounds it.
pub proof fn lemma_surroundings_mirrored(a: Neighborhood, b: Neighborhood, x: int, y: int)
    requires
        mirrored(a, b),
        0 <= x < CHUNK_SIZE,
        0 <= y < CHUNK_SIZE,
    ensures
        SimulationHelperChunk::pixel(b, flip_x(x), y) == SimulationHelperChunk::pixel(a, x, y),
        surroundings::<SimulationHelperChunk>(b, flip_x(x), y) == mirror_surroundings(
            surroundings::<SimulationHelperChunk>(a, x, y),
        ),
{
    assert(cell_mirrored(a, b, x, y));
    assert(cell_mirrored(a, b, x, y - 1));
    assert(cell_mirrored(a, b, x, y + 1));
    assert(cell_mirrored(a, b, x - 1, y + 1));
    assert(cell_mirrored(a, b, x + 1, y + 1));
    assert(cell_mirrored(a, b, x, y + 2));
    assert(cell_mirrored(a, b, x, y + 3));
    assert(cell_mirrored(a, b, x, y + 4));
    assert(cell_mirrored(a, b, x, y + 5));
    assert(cell_mirrored(a, b, x - 2, y + 1));
    assert(cell_mirrored(a, b, x - 2, y + 2));
    assert(cell_mirrored(a, b, x + 2, y + 1));
    assert(cell_mirrored(a, b, x + 2, y + 2));
}

/// Spawning the same particle from mirrored places keeps two
/// neighbourhoods mirror images of each other.
pub proof fn lemma_spawned_mirrored(
    a: Neighborhood,
    b: Neighborhood,
    x: int,
    y: int,
    material: MaterialInstance,
    vel: Velocity,
)
    requires
        mirrored(a, b),
        0 <= x < CHUNK_SIZE,
        0 <= y < CHUNK_SIZE,
    ensures
        mirrored(
            a.with_spawned(material, Position { x: x as i64, y: y as i64 }, vel),
            b.with_spawned(material, Position { x: flip_x(x) as i64, y: y as i64 }, vel),
        ),
{
    let a2 = a.with_spawned(material, Position { x: x as i64, y: y as i64 }, vel);
    let b2 = b.with_spawned(material, Position { x: flip_x(x) as i64, y: y as i64 }, vel);
    assert forall|c: int| 0 <= c < 9 implies #[trigger] a2.untouched(c) || a2.bounded(c) by {
        assert(a.untouched(c) || a.bounded(c));
    }
    assert forall|c: int| 0 <= c < 9 implies #[trigger] b2.untouched(c) || b2.bounded(c) by {
        assert(b.untouched(c) || b.bounded(c));
    }
    assert forall|x2: int, y2: int| in_halo(x2, y2) implies #[trigger] cell_mirrored(
        a2,
        b2,
        x2,
        y2,
    ) by {
        assert(cell_mirrored(a, b, x2, y2));
    }
    assert forall|c: int| 0 <= c < 9 implies #[trigger] chunk_mirrored(a2, b2, c) by {
        assert(chunk_mirrored(a, b, c));
    }
    assert forall|i: int| 0 <= i < a2.particles.len() implies #[trigger] b2.particles[i]
        == flip_particle(a2.particles[i], a2.chunk_x) by {
        if i < a.particles.len() {
            assert(b.particles[i] == flip_particle(a.particles[i], a.chunk_x));
        } else {
            assert(a.chunk_x * CHUNK_SIZE == a.chunk_x * 100) by (nonlinear_arith)
                requires
                    CHUNK_SIZE == 100,
            ;
        }
    }
}

/// Giving mirrored pixels their moves under mirrored draws keeps two
/// neighbourhoods mirror images of each other.
pub proof fn lemma_processed_mirrored(a: Neighborhood, b: Neighborhood, x: int, y: int, d: Draws)
    requires
        mirrored(a, b),
        0 <= x < CHUNK_SIZE,
        0 <= y < CHUNK_SIZE,
    ensures
        mirrored(processed(a, x, y, d), processed(b, flip_x(x), y, mirror_draws(d))),
{
    let fx = flip_x(x);
    let fd = mirror_draws(d);
    lemma_surroundings_mirrored(a, b, x, y);
    let cur = SimulationHelperChunk::pixel(a, x, y);
    let sa = surroundings::<SimulationHelperChunk>(a, x, y);
    lemma_rule_is_mirror_symmetric(sa, d);
    lemma_moves_go_down_into_open_cells(sa, d);
    let mv = move_of::<SimulationHelperChunk>(a, x, y, cur, d);
    let fmv = move_of::<SimulationHelperChunk>(b, fx, y, cur, fd);
    assert(fmv == mirror_move(mv));
    let a1 = moved::<SimulationHelperChunk>(a, x, y, cur, mv, d);
    let b1 = moved::<SimulationHelperChunk>(b, fx, y, cur, fmv, fd);
    match mv {
        Move::Stay => {},
        Move::Detach => {
            assert(launch_velocity(fd) == launch_velocity(d));
            lemma_spawned_mirrored(a, b, x, y, cur, launch_velocity(d));
            lemma_placed_mirrored(a1, b1, x, y, left_behind(mv)->0);
        },
        Move::Shift { dx, dy } => {
            assert(flip_x(x + dx) == fx - dx);
            lemma_placed_mirrored(a, b, x + dx, y + dy, cur);
            lemma_placed_mirrored(a1, b1, x, y, left_behind(mv)->0);
        },
    }
}

/// Scanning mirrored rows in opposite directions under mirrored draws keeps
/// two neighbourhoods mirror images of each other.
pub proof fn lemma_row_mirrored(
    a: Neighborhood,
    b: Neighborhood,
    r: Rect<i32>,
    left_to_right: bool,
    y: int,
    row: Seq<Draws>,
    n: nat,
)
    requires
        mirrored(a, b),
        r.within(CHUNK_SIZE as int),
        r.y1 <= y < r.y2,
        n <= r.x2 - r.x1,
        n <= row.len(),
    ensures
        mirrored(
            scanned_row(a, r, left_to_right, y, row, n),
            scanned_row(
                b,
                flip_rect(r),
                !left_to_right,
                y,
                Seq::new(row.len(), |k: int| mirror_draws(row[k])),
                n,
            ),
        ),
    decreases n,
{
    if n > 0 {
        lemma_row_mirrored(a, b, r, left_to_right, y, row, (n - 1) as nat);
        let frow = Seq::new(row.len(), |k: int| mirror_draws(row[k]));
        assert(frow[n - 1] == mirror_draws(row[n - 1]));
        assert(column(flip_rect(r), !left_to_right, n - 1) == flip_x(
            column(r, left_to_right, n - 1),
        ));
        lemma_processed_mirrored(
            scanned_row(a, r, left_to_right, y, row, (n - 1) as nat),
            scanned_row(b, flip_rect(r), !left_to_right, y, frow, (n - 1) as nat),
            column(r, left_to_right, n - 1),
            y,
            row[n - 1],
        );
    }
}

/// Scanning mirrored rectangles in opposite directions under mirrored draws
/// keeps two neighbourhoods mirror images of each other.
pub proof fn lemma_scan_mirrored(
    a: Neighborhood,
    b: Neighborhood,
    r: Rect<i32>,
    left_to_right: bool,
    table: Seq<Seq<Draws>>,
    n: nat,
)
    requires
        mirrored(a, b),
        r.within(CHUNK_SIZE as int),
        n <= r.y2 - r.y1,
        n <= table.len(),
        forall|j: int| 0 <= j < n ==> (#[trigger] table[j]).len() >= r.x2 - r.x1,
    ensures
        mirrored(
            scanned(a, r, left_to_right, table, n),
            scanned(b, flip_rect(r), !left_to_right, flip_table(table), n),
        ),
    decreases n,
{
    if n > 0 {
        lemma_scan_mirrored(a, b, r, left_to_right, table, (n - 1) as nat);
        let row = table[n - 1];
        assert(flip_table(table)[n - 1] =~= Seq::new(row.len(), |k: int| mirror_draws(row[k])));
        lemma_row_mirrored(
            scanned(a, r, left_to_right, table, (n - 1) as nat),
            scanned(b, flip_rect(r), !left_to_right, flip_table(table), (n - 1) as nat),
            r,
            left_to_right,
            r.y2 - n,
            row,
            (r.x2 - r.x1) as nat,
        );
    }
}

/// Turning the trackers into dirty rectangles keeps two neighbourhoods
/// mirror images of each other: the rectangles are mirrored too.
pub proof fn lemma_finished_mirrored(a: Neighborhood, b: Neighborhood)
    requires
        mirrored(a, b),
    ensures
        mirrored(a.finished(), b.finished()),
{
    let a2 = a.finished();
    let b2 = b.finished();
    assert forall|c: int| 0 <= c < 9 implies (#[trigger] a2.chunks[c]).wf() by {
        assert(a.chunks[c].wf());
    }
    assert forall|c: int| 0 <= c < 9 implies #[trigger] a2.untouched(c) || a2.bounded(c) by {
        assert(a.untouched(c) || a.bounded(c));
    }
    assert forall|c: int| 0 <= c < 9 implies (#[trigger] b2.chunks[c]).wf() by {
        assert(b.chunks[c].wf());
    }
    assert forall|c: int| 0 <= c < 9 implies #[trigger] b2.untouched(c) || b2.bounded(c) by {
        assert(b.untouched(c) || b.bounded(c));
    }
    assert forall|x2: int, y2: int| in_halo(x2, y2) implies #[trigger] cell_mirrored(
        a2,
        b2,
        x2,
        y2,
    ) by {
        assert(cell_mirrored(a, b, x2, y2));
        lemma_flip_decodes(x2, y2);
    }
    assert forall|c: int| 0 <= c < 9 implies #[trigger] chunk_mirrored(a2, b2, c) by {
        assert(chunk_mirrored(a, b, c));
        lemma_flip_chunk_twice(c);
        assert(a.untouched(c) || a.bounded(c));
    }
    assert forall|i: int| 0 <= i < a2.particles.len() implies #[trigger] b2.particles[i]
        == flip_particle(a2.particles[i], a2.chunk_x) by {
        assert(b.particles[i] == flip_particle(a.particles[i], a.chunk_x));
    }
}

/// A step over the mirror image of a neighbourhood, scanned the other way
/// and with every set of draws mirrored, gives the mirror image of what the
/// step gives: pixels, colours, lights, dirty rectangles and the places of
/// the particles spawned.
pub proof fn lemma_step_is_mirror_symmetric(
    a: Neighborhood,
    b: Neighborhood,
    r: Rect<i32>,
    left_to_right: bool,
    table: Seq<Seq<Draws>>,
)
    requires
        mirrored(a, b),
        r.within(CHUNK_SIZE as int),
        table.len() >= r.y2 - r.y1,
        forall|j: int| 0 <= j < table.len() ==> (#[trigger] table[j]).len() >= r.x2 - r.x1,
    ensures
        mirrored(
            stepped(a, r, left_to_right, table),
            stepped(b, flip_rect(r), !left_to_right, flip_table(table)),
        ),
{
    let n = (r.y2 - r.y1) as nat;
    lemma_scan_mirrored(a, b, r, left_to_right, table, n);
    lemma_finished_mirrored(
        scanned(a, r, left_to_right, table, n),
        scanned(b, flip_rect(r), !left_to_right, flip_table(table), n),
    );
}

} // verus!
