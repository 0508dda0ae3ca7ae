//! What holds of every step over a chunk and its neighbours, whatever the
//! draws: material is neither made nor lost, and it only ever sinks.

use vstd::prelude::*;
use crate::chunk::{
    CHUNK_AREA, CHUNK_SIZE, ChunkView, Neighborhood, SimulationHelperChunk, chunk_index,
    chunk_px_x, chunk_px_y, in_halo, lemma_decode_then_encode, lemma_decoding_is_injective,
    pixel_index,
};
use crate::helper::{SimulationHelper, move_of, moved, placed, surroundings};
use crate::material::{MaterialInstance, PhysicsType, air_pixel};
use crate::rect::Rect;
use crate::rule::{Draws, Move, launch_velocity, lemma_moves_go_down_into_open_cells};
use crate::particle::{Particle, Position};
use crate::scan::{column, idled, processed, scanned, scanned_row, started, stepped};

verus! {

/// The weights of the sand pixels of one buffer, added up: the pixel at
/// `px` counts `w(px)`.
pub open spec fn sand_weight(s: Seq<MaterialInstance>, w: spec_fn(int) -> nat) -> nat
    decreases s.len(),
{
    if s.len() == 0 {
        0
    } else {
        sand_weight(s.drop_last(), w) + if s.last().physics == PhysicsType::Sand {
            w(s.len() - 1)
        } else {
            0
        }
    }
}

/// What a pixel of the given kind adds to a sum of weights.
pub open spec fn share(mat: MaterialInstance, weight: nat) -> nat {
    if mat.physics == PhysicsType::Sand {
        weight
    } else {
        0
    }
}

/// Replacing one pixel changes the sum by what the old pixel gave and the
/// new one gives.
pub proof fn lemma_weight_after_update(
    s: Seq<MaterialInstance>,
    w: spec_fn(int) -> nat,
    i: int,
    v: MaterialInstance,
)
    requires
        0 <= i < s.len(),
    ensures
        sand_weight(s.update(i, v), w) + share(s[i], w(i)) == sand_weight(s, w) + share(v, w(i)),
    decreases s.len(),
{
    let t = s.update(i, v);
    if i == s.len() - 1 {
        assert(t.drop_last() =~= s.drop_last());
    } else {
        assert(t.drop_last() =~= s.drop_last().update(i, v));
        lemma_weight_after_update(s.drop_last(), w, i, v);
    }
}

/// The weights of the sand pixels of nine chunks, added up: the pixel at
/// `px` of chunk `ch` counts `w(ch, px)`.
pub open spec fn grid_weight(chunks: Seq<ChunkView>, w: spec_fn(int, int) -> nat) -> nat {
    sand_weight(chunks[0].pixels, |px: int| w(0, px)) + sand_weight(
        chunks[1].pixels,
        |px: int| w(1, px),
    ) + sand_weight(chunks[2].pixels, |px: int| w(2, px)) + sand_weight(
        chunks[3].pixels,
        |px: int| w(3, px),
    ) + sand_weight(chunks[4].pixels, |px: int| w(4, px)) + sand_weight(
        chunks[5].pixels,
        |px: int| w(5, px),
    ) + sand_weight(chunks[6].pixels, |px: int| w(6, px)) + sand_weight(
        chunks[7].pixels,
        |px: int| w(7, px),
    ) + sand_weight(chunks[8].pixels, |px: int| w(8, px))
}

/// How many sand pixels nine chunks hold.
pub open spec fn sand_count(chunks: Seq<ChunkView>) -> nat {
    grid_weight(chunks, |ch: int, px: int| 1nat)
}

/// How far above the lowest row of the neighbourhood the pixel at `px` of
/// chunk `ch` lies, counted from one.
pub open spec fn height_above_floor(ch: int, px: int) -> nat {
    if 0 <= ch < 9 && 0 <= px < CHUNK_AREA {
        (3 * CHUNK_SIZE - (ch / 3) * CHUNK_SIZE - px / (CHUNK_SIZE as int)) as nat
    } else {
        0
    }
}

/// The heights of all sand pixels above the lowest row of the
/// neighbourhood, added up.
pub open spec fn potential(chunks: Seq<ChunkView>) -> nat {
    grid_weight(chunks, |ch: int, px: int| height_above_floor(ch, px))
}

/// Replacing one pixel of one chunk changes the sum over the grid by what
/// the old pixel gave and the new one gives.
pub proof fn lemma_grid_weight_after_update(
    chunks: Seq<ChunkView>,
    w: spec_fn(int, int) -> nat,
    ch: int,
    px: int,
    v: MaterialInstance,
)
    requires
        chunks.len() == 9,
        0 <= ch < 9,
        0 <= px < chunks[ch].pixels.len(),
    ensures
        grid_weight(
            chunks.update(ch, ChunkView { pixels: chunks[ch].pixels.update(px, v), ..chunks[ch] }),
            w,
        ) + share(chunks[ch].pixels[px], w(ch, px)) == grid_weight(chunks, w) + share(
            v,
            w(ch, px),
        ),
{
    let wc = |p: int| w(ch, p);
    lemma_weight_after_update(chunks[ch].pixels, wc, px, v);
    assert(wc(px) == w(ch, px));
    if ch == 0 {
        assert(wc =~= (|p: int| w(0, p)));
    } else if ch == 1 {
        assert(wc =~= (|p: int| w(1, p)));
    } else if ch == 2 {
        assert(wc =~= (|p: int| w(2, p)));
    } else if ch == 3 {
        assert(wc =~= (|p: int| w(3, p)));
    } else if ch == 4 {
        assert(wc =~= (|p: int| w(4, p)));
    } else if ch == 5 {
        assert(wc =~= (|p: int| w(5, p)));
    } else if ch == 6 {
        assert(wc =~= (|p: int| w(6, p)));
    } else if ch == 7 {
        assert(wc =~= (|p: int| w(7, p)));
    } else {
        assert(wc =~= (|p: int| w(8, p)));
    }
}

/// Writing a pixel with its colour and light keeps the neighbourhood
/// consistent, changes the pixel written and no other, and leaves the
/// particles alone.
pub proof fn lemma_placed_changes_one_pixel(
    m: Neighborhood,
    x: int,
    y: int,
    mat: MaterialInstance,
    w: spec_fn(int, int) -> nat,
)
    requires
        m.wf(),
        in_halo(x, y),
    ensures
        ({
            let e = placed::<SimulationHelperChunk>(m, x, y, mat);
            let ch = chunk_index(x, y);
            let px = pixel_index(x, y);
            &&& e.wf()
            &&& e.particles == m.particles
            &&& e.chunk_x == m.chunk_x
            &&& e.chunk_y == m.chunk_y
            &&& grid_weight(e.chunks, w) + share(SimulationHelperChunk::pixel(m, x, y), w(ch, px))
                == grid_weight(m.chunks, w) + share(mat, w(ch, px))
            &&& SimulationHelperChunk::pixel(e, x, y) == mat
            &&& forall|x2: int, y2: int|
                in_halo(x2, y2) && (x2 != x || y2 != y) ==> #[trigger] SimulationHelperChunk::pixel(
                    e,
                    x2,
                    y2,
                ) == SimulationHelperChunk::pixel(m, x2, y2)
        }),
{
    let ch = chunk_index(x, y);
    let px = pixel_index(x, y);
    lemma_decode_then_encode(x, y);
    let c1 = SimulationHelperChunk::put_color(m, x, y, mat.color);
    let c2 = SimulationHelperChunk::put_light(c1, x, y, mat.light);
    let e = SimulationHelperChunk::put_pixel(c2, x, y, mat);
    assert(e == placed::<SimulationHelperChunk>(m, x, y, mat));
    assert(m.chunks[ch].wf());
    assert forall|c: int| 0 <= c < 9 implies (#[trigger] c2.chunks[c]).pixels == m.chunks[c].pixels
        && c2.chunks[c].wf() by {
        assert(m.chunks[c].wf());
    }
    assert(grid_weight(c2.chunks, w) == grid_weight(m.chunks, w));
    lemma_grid_weight_after_update(c2.chunks, w, ch, px, mat);
    assert forall|c: int| 0 <= c < 9 implies (#[trigger] e.chunks[c]).wf() by {
        assert(c2.chunks[c].wf());
    }
    assert forall|c: int| 0 <= c < 9 implies #[trigger] e.untouched(c) || e.bounded(c) by {
        assert(m.untouched(c) || m.bounded(c));
    }
    assert forall|x2: int, y2: int|
        in_halo(x2, y2) && (x2 != x || y2 != y) implies #[trigger] SimulationHelperChunk::pixel(
        e,
        x2,
        y2,
    ) == SimulationHelperChunk::pixel(m, x2, y2) by {
        lemma_decode_then_encode(x2, y2);
        if chunk_index(x2, y2) == ch && pixel_index(x2, y2) == px {
            lemma_decoding_is_injective(x, y, x2, y2);
        }
    }
}

/// A pixel's height above the lowest row of the neighbourhood is told by
/// its row alone.
pub proof fn lemma_height_of_cell(x: int, y: int)
    requires
        in_halo(x, y),
    ensures
        height_above_floor(chunk_index(x, y), pixel_index(x, y)) == 2 * CHUNK_SIZE - y,
{
    lemma_decode_then_encode(x, y);
    let px = pixel_index(x, y);
    vstd::arithmetic::div_mod::lemma_fundamental_div_mod_converse(
        px,
        CHUNK_SIZE as int,
        chunk_px_y(y),
        chunk_px_x(x),
    );
}

/// Giving one pixel of the centre chunk its move keeps the neighbourhood
/// consistent and makes or loses no material: a sand pixel that leaves the
/// grid is one more particle. If anything changed, a sand pixel sank or
/// left, so the heights of the sand pixels add up to less than before.
pub proof fn lemma_processed_conserves_and_sinks(m: Neighborhood, x: int, y: int, d: Draws)
    requires
        m.wf(),
        0 <= x < CHUNK_SIZE,
        0 <= y < CHUNK_SIZE,
    ensures
        ({
            let e = processed(m, x, y, d);
            &&& e.wf()
            &&& e.chunk_x == m.chunk_x
            &&& e.chunk_y == m.chunk_y
            &&& sand_count(e.chunks) + e.particles.len() == sand_count(m.chunks)
                + m.particles.len()
            &&& e.particles.len() >= m.particles.len()
            &&& e == m || potential(e.chunks) < potential(m.chunks)
        }),
{
    let cur = SimulationHelperChunk::pixel(m, x, y);
    let mv = move_of::<SimulationHelperChunk>(m, x, y, cur, d);
    let after = moved::<SimulationHelperChunk>(m, x, y, cur, mv, d);
    let e = processed(m, x, y, d);
    let one = |ch: int, px: int| 1nat;
    let high = |ch: int, px: int| height_above_floor(ch, px);
    lemma_height_of_cell(x, y);
    lemma_decode_then_encode(x, y);
    match mv {
        Move::Stay => {},
        Move::Detach => {
            assert(cur.physics == PhysicsType::Sand);
            assert(after.wf()) by {
                assert forall|c: int| 0 <= c < 9 implies #[trigger] after.untouched(c)
                    || after.bounded(c) by {
                    assert(m.untouched(c) || m.bounded(c));
                }
            }
            assert(SimulationHelperChunk::pixel(after, x, y) == cur);
            lemma_placed_changes_one_pixel(after, x, y, air_pixel(), one);
            lemma_placed_changes_one_pixel(after, x, y, air_pixel(), high);
        },
        Move::Shift { dx, dy } => {
            assert(cur.physics == PhysicsType::Sand);
            let s = surroundings::<SimulationHelperChunk>(m, x, y);
            lemma_moves_go_down_into_open_cells(s, d);
            let tx = x + dx;
            let ty = y + dy;
            assert(in_halo(tx, ty));
            assert(SimulationHelperChunk::pixel(m, tx, ty).physics == PhysicsType::Air);
            lemma_height_of_cell(tx, ty);
            lemma_decode_then_encode(tx, ty);
            lemma_placed_changes_one_pixel(m, tx, ty, cur, one);
            lemma_placed_changes_one_pixel(m, tx, ty, cur, high);
            assert(SimulationHelperChunk::pixel(after, x, y) == cur);
            lemma_placed_changes_one_pixel(after, x, y, air_pixel(), one);
            lemma_placed_changes_one_pixel(after, x, y, air_pixel(), high);
        },
    }
}

/// A sand pixel that moves leaves air behind and turns up in exactly one
/// place: in the one cell it moved to, which was open, or as the one
/// particle spawned. No other cell changes, and a pixel that stays changes
/// nothing.
pub proof fn lemma_sand_pixel_ends_in_one_place(m: Neighborhood, x: int, y: int, d: Draws)
    requires
        m.wf(),
        0 <= x < CHUNK_SIZE,
        0 <= y < CHUNK_SIZE,
    ensures
        ({
            let cur = SimulationHelperChunk::pixel(m, x, y);
            let e = processed(m, x, y, d);
            match move_of::<SimulationHelperChunk>(m, x, y, cur, d) {
                Move::Stay => e == m,
                Move::Detach => {
                    &&& SimulationHelperChunk::pixel(e, x, y) == air_pixel()
                    &&& e.particles == m.particles.push(
                        Particle {
                            material: cur,
                            pos: Position {
                                x: (x + m.chunk_x * CHUNK_SIZE) as i64,
                                y: (y + m.chunk_y * CHUNK_SIZE) as i64,
                            },
                            vel: launch_velocity(d),
                        },
                    )
                    &&& forall|x2: int, y2: int|
                        in_halo(x2, y2) && (x2 != x || y2 != y)
                            ==> #[trigger] SimulationHelperChunk::pixel(e, x2, y2)
                            == SimulationHelperChunk::pixel(m, x2, y2)
                },
                Move::Shift { dx, dy } => {
                    &&& SimulationHelperChunk::pixel(e, x, y) == air_pixel()
                    &&& SimulationHelperChunk::pixel(m, x + dx, y + dy).physics
                        == PhysicsType::Air
                    &&& SimulationHelperChunk::pixel(e, x + dx, y + dy) == cur
                    &&& e.particles == m.particles
                    &&& forall|x2: int, y2: int|
                        in_halo(x2, y2) && (x2 != x || y2 != y) && (x2 != x + dx || y2 != y + dy)
                            ==> #[trigger] SimulationHelperChunk::pixel(e, x2, y2)
                            == SimulationHelperChunk::pixel(m, x2, y2)
                },
            }
        }),
{
    let cur = SimulationHelperChunk::pixel(m, x, y);
    let mv = move_of::<SimulationHelperChunk>(m, x, y, cur, d);
    let after = moved::<SimulationHelperChunk>(m, x, y, cur, mv, d);
    let one = |ch: int, px: int| 1nat;
    match mv {
        Move::Stay => {},
        Move::Detach => {
            assert(after.wf()) by {
                assert forall|c: int| 0 <= c < 9 implies #[trigger] after.untouched(c)
                    || after.bounded(c) by {
                    assert(m.untouched(c) || m.bounded(c));
                }
            }
            lemma_placed_changes_one_pixel(after, x, y, air_pixel(), one);
        },
        Move::Shift { dx, dy } => {
            let s = surroundings::<SimulationHelperChunk>(m, x, y);
            lemma_moves_go_down_into_open_cells(s, d);
            lemma_placed_changes_one_pixel(m, x + dx, y + dy, cur, one);
            lemma_placed_changes_one_pixel(after, x, y, air_pixel(), one);
        },
    }
}

/// What `lemma_processed_conserves_and_sinks` says of one pixel holds of any
/// part of a row.
pub proof fn lemma_row_conserves_and_sinks(
    m: Neighborhood,
    r: Rect<i32>,
    left_to_right: bool,
    y: int,
    row: Seq<Draws>,
    n: nat,
)
    requires
        m.wf(),
        r.within(CHUNK_SIZE as int),
        r.y1 <= y < r.y2,
        n <= r.x2 - r.x1,
    ensures
        ({
            let e = scanned_row(m, r, left_to_right, y, row, n);
            &&& e.wf()
            &&& e.chunk_x == m.chunk_x
            &&& e.chunk_y == m.chunk_y
            &&& sand_count(e.chunks) + e.particles.len() == sand_count(m.chunks)
                + m.particles.len()
            &&& e.particles.len() >= m.particles.len()
            &&& e == m || potential(e.chunks) < potential(m.chunks)
        }),
    decreases n,
{
    if n > 0 {
        lemma_row_conserves_and_sinks(m, r, left_to_right, y, row, (n - 1) as nat);
        lemma_processed_conserves_and_sinks(
            scanned_row(m, r, left_to_right, y, row, (n - 1) as nat),
            column(r, left_to_right, n - 1),
            y,
            row[n - 1],
        );
    }
}

/// What `lemma_processed_conserves_and_sinks` says of one pixel holds of any
/// number of rows.
pub proof fn lemma_scan_conserves_and_sinks(
    m: Neighborhood,
    r: Rect<i32>,
    left_to_right: bool,
    table: Seq<Seq<Draws>>,
    n: nat,
)
    requires
        m.wf(),
        r.within(CHUNK_SIZE as int),
        n <= r.y2 - r.y1,
    ensures
        ({
            let e = scanned(m, r, left_to_right, table, n);
            &&& e.wf()
            &&& e.chunk_x == m.chunk_x
            &&& e.chunk_y == m.chunk_y
            &&& sand_count(e.chunks) + e.particles.len() == sand_count(m.chunks)
                + m.particles.len()
            &&& e.particles.len() >= m.particles.len()
            &&& e == m || potential(e.chunks) < potential(m.chunks)
        }),
    decreases n,
{
    if n > 0 {
        lemma_scan_conserves_and_sinks(m, r, left_to_right, table, (n - 1) as nat);
        lemma_row_conserves_and_sinks(
            scanned(m, r, left_to_right, table, (n - 1) as nat),
            r,
            left_to_right,
            r.y2 - n,
            table[n - 1],
            (r.x2 - r.x1) as nat,
        );
    }
}

/// Whether two neighbourhoods hold the same at `(x, y)`: pixel, colour
/// bytes and light entry.
pub open spec fn cell_same(a: Neighborhood, b: Neighborhood, x: int, y: int) -> bool {
    let ch = chunk_index(x, y);
    let px = pixel_index(x, y);
    &&& b.chunks[ch].pixels[px] == a.chunks[ch].pixels[px]
    &&& b.chunks[ch].lights[px] == a.chunks[ch].lights[px]
    &&& b.chunks[ch].colors[4 * px] == a.chunks[ch].colors[4 * px]
    &&& b.chunks[ch].colors[4 * px + 1] == a.chunks[ch].colors[4 * px + 1]
    &&& b.chunks[ch].colors[4 * px + 2] == a.chunks[ch].colors[4 * px + 2]
    &&& b.chunks[ch].colors[4 * px + 3] == a.chunks[ch].colors[4 * px + 3]
}

/// Whether the trackers of its chunk bound the cell `(x, y)`.
pub open spec fn cell_bounded(m: Neighborhood, x: int, y: int) -> bool {
    let ch = chunk_index(x, y);
    &&& m.bounded(ch)
    &&& m.min_x[ch] <= chunk_px_x(x) <= m.max_x[ch]
    &&& m.min_y[ch] <= chunk_px_y(y) <= m.max_y[ch]
}

/// Whether every cell that differs from what it was at the start is bounded
/// by the trackers of its chunk.
pub open spec fn changes_bounded(start: Neighborhood, m: Neighborhood) -> bool {
    forall|x: int, y: int|
        in_halo(x, y) ==> #[trigger] cell_same(start, m, x, y) || cell_bounded(m, x, y)
}

/// Writing a pixel with its colour and light keeps every change bounded.
pub proof fn lemma_placed_keeps_changes_bounded(
    start: Neighborhood,
    m: Neighborhood,
    x: int,
    y: int,
    mat: MaterialInstance,
)
    requires
        m.wf(),
        in_halo(x, y),
        changes_bounded(start, m),
    ensures
        changes_bounded(start, placed::<SimulationHelperChunk>(m, x, y, mat)),
{
    let e = placed::<SimulationHelperChunk>(m, x, y, mat);
    let ch = chunk_index(x, y);
    let px = pixel_index(x, y);
    lemma_decode_then_encode(x, y);
    assert(m.chunks[ch].wf());
    assert(m.untouched(ch) || m.bounded(ch));
    assert forall|x2: int, y2: int| in_halo(x2, y2) implies #[trigger] cell_same(start, e, x2, y2)
        || cell_bounded(e, x2, y2) by {
        lemma_decode_then_encode(x2, y2);
        let ch2 = chunk_index(x2, y2);
        assert(m.chunks[ch2].wf());
        assert(m.untouched(ch2) || m.bounded(ch2));
        assert(cell_same(start, m, x2, y2) || cell_bounded(m, x2, y2));
        if ch2 == ch && pixel_index(x2, y2) == px {
            lemma_decoding_is_injective(x, y, x2, y2);
        }
    }
}

/// Giving a pixel of the centre chunk its move keeps every change bounded.
pub proof fn lemma_processed_keeps_changes_bounded(
    start: Neighborhood,
    m: Neighborhood,
    x: int,
    y: int,
    d: Draws,
)
    requires
        m.wf(),
        0 <= x < CHUNK_SIZE,
        0 <= y < CHUNK_SIZE,
        changes_bounded(start, m),
    ensures
        changes_bounded(start, processed(m, x, y, d)),
{
    let cur = SimulationHelperChunk::pixel(m, x, y);
    let mv = move_of::<SimulationHelperChunk>(m, x, y, cur, d);
    let after = moved::<SimulationHelperChunk>(m, x, y, cur, mv, d);
    let one = |ch: int, px: int| 1nat;
    match mv {
        Move::Stay => {},
        Move::Detach => {
            assert(after.wf()) by {
                assert forall|c: int| 0 <= c < 9 implies #[trigger] after.untouched(c)
                    || after.bounded(c) by {
                    assert(m.untouched(c) || m.bounded(c));
                }
            }
            assert(changes_bounded(start, after)) by {
                assert forall|x2: int, y2: int| in_halo(x2, y2) implies #[trigger] cell_same(
                    start,
                    after,
                    x2,
                    y2,
                ) || cell_bounded(after, x2, y2) by {
                    assert(cell_same(start, m, x2, y2) || cell_bounded(m, x2, y2));
                }
            }
            lemma_placed_keeps_changes_bounded(start, after, x, y, air_pixel());
        },
        Move::Shift { dx, dy } => {
            let s = surroundings::<SimulationHelperChunk>(m, x, y);
            lemma_moves_go_down_into_open_cells(s, d);
            lemma_placed_changes_one_pixel(m, x + dx, y + dy, cur, one);
            lemma_placed_keeps_changes_bounded(start, m, x + dx, y + dy, cur);
            lemma_placed_keeps_changes_bounded(start, after, x, y, air_pixel());
        },
    }
}

/// Scanning part of a row keeps every change bounded.
pub proof fn lemma_row_keeps_changes_bounded(
    start: Neighborhood,
    m: Neighborhood,
    r: Rect<i32>,
    left_to_right: bool,
    y: int,
    row: Seq<Draws>,
    n: nat,
)
    requires
        m.wf(),
        r.within(CHUNK_SIZE as int),
        r.y1 <= y < r.y2,
        n <= r.x2 - r.x1,
        changes_bounded(start, m),
    ensures
        changes_bounded(start, scanned_row(m, r, left_to_right, y, row, n)),
    decreases n,
{
    if n > 0 {
        lemma_row_keeps_changes_bounded(start, m, r, left_to_right, y, row, (n - 1) as nat);
        lemma_row_conserves_and_sinks(m, r, left_to_right, y, row, (n - 1) as nat);
        lemma_processed_keeps_changes_bounded(
            start,
            scanned_row(m, r, left_to_right, y, row, (n - 1) as nat),
            column(r, left_to_right, n - 1),
            y,
            row[n - 1],
        );
    }
}

/// Scanning some rows keeps every change bounded.
pub proof fn lemma_scan_keeps_changes_bounded(
    start: Neighborhood,
    r: Rect<i32>,
    left_to_right: bool,
    table: Seq<Seq<Draws>>,
    n: nat,
)
    requires
        start.wf(),
        r.within(CHUNK_SIZE as int),
        n <= r.y2 - r.y1,
    ensures
        changes_bounded(start, scanned(start, r, left_to_right, table, n)),
    decreases n,
{
    if n > 0 {
        lemma_scan_keeps_changes_bounded(start, r, left_to_right, table, (n - 1) as nat);
        lemma_scan_conserves_and_sinks(start, r, left_to_right, table, (n - 1) as nat);
        lemma_row_keeps_changes_bounded(
            start,
            scanned(start, r, left_to_right, table, (n - 1) as nat),
            r,
            left_to_right,
            r.y2 - n,
            table[n - 1],
            (r.x2 - r.x1) as nat,
        );
    }
}

/// After a step every cell that is not as it was, be it in pixel, colour or
/// light, lies in the dirty rectangle of its chunk.
pub proof fn lemma_dirty_rectangles_cover_every_change(
    chunks: Seq<ChunkView>,
    particles: Seq<Particle>,
    chunk_x: i32,
    chunk_y: i32,
    r: Rect<i32>,
    left_to_right: bool,
    table: Seq<Seq<Draws>>,
    x: int,
    y: int,
)
    requires
        steppable_views(chunks),
        r.within(CHUNK_SIZE as int),
        in_halo(x, y),
    ensures
        ({
            let start = started(chunks, particles, chunk_x, chunk_y);
            let end = stepped(start, r, left_to_right, table);
            cell_same(start, end, x, y) || (end.chunks[chunk_index(x, y)].dirty_rect matches Some(
                dirty,
            ) && dirty.holds(chunk_px_x(x), chunk_px_y(y)))
        }),
{
    let start = started(chunks, particles, chunk_x, chunk_y);
    assert(start.wf()) by {
        assert forall|c: int| 0 <= c < 9 implies #[trigger] start.untouched(c) || start.bounded(
            c,
        ) by {
            assert(start.untouched(c));
        }
    }
    let n = (r.y2 - r.y1) as nat;
    lemma_scan_keeps_changes_bounded(start, r, left_to_right, table, n);
    let mid = scanned(start, r, left_to_right, table, n);
    lemma_decode_then_encode(x, y);
    assert(cell_same(start, mid, x, y) || cell_bounded(mid, x, y));
}

/// Whether nine chunk views may be stepped as the neighbourhood of the
/// middle one.
pub open spec fn steppable_views(chunks: Seq<ChunkView>) -> bool {
    &&& chunks.len() == 9
    &&& forall|i: int| 0 <= i < 9 ==> (#[trigger] chunks[i]).wf()
    &&& chunks[4].dirty_rect matches Some(r) ==> r.within(CHUNK_SIZE as int)
}

/// Whether no chunk has a dirty rectangle.
pub open spec fn quiet(chunks: Seq<ChunkView>) -> bool {
    forall|i: int| 0 <= i < chunks.len() ==> (#[trigger] chunks[i]).dirty_rect is None
}

/// A whole step makes or loses no material: the sand pixels in the grid
/// and the particles together are as many as before. And the step either
/// leaves every chunk without a dirty rectangle and every buffer as it was,
/// or some sand sank or left the grid.
pub proof fn lemma_step_conserves_and_sinks(
    chunks: Seq<ChunkView>,
    particles: Seq<Particle>,
    chunk_x: i32,
    chunk_y: i32,
    r: Rect<i32>,
    left_to_right: bool,
    table: Seq<Seq<Draws>>,
)
    requires
        steppable_views(chunks),
        r.within(CHUNK_SIZE as int),
    ensures
        ({
            let end = stepped(
                started(chunks, particles, chunk_x, chunk_y),
                r,
                left_to_right,
                table,
            );
            &&& steppable_views(end.chunks)
            &&& sand_count(end.chunks) + end.particles.len() == sand_count(chunks)
                + particles.len()
            &&& end.particles.len() >= particles.len()
            &&& (end.chunks == idled(chunks) && end.particles == particles) || potential(
                end.chunks,
            ) < potential(chunks)
        }),
{
    let start = started(chunks, particles, chunk_x, chunk_y);
    assert(start.wf()) by {
        assert forall|c: int| 0 <= c < 9 implies #[trigger] start.untouched(c) || start.bounded(
            c,
        ) by {
            assert(start.untouched(c));
        }
    }
    let n = (r.y2 - r.y1) as nat;
    lemma_scan_conserves_and_sinks(start, r, left_to_right, table, n);
    let mid = scanned(start, r, left_to_right, table, n);
    let end = mid.finished();
    assert forall|c: int| 0 <= c < 9 implies (#[trigger] end.chunks[c]).pixels
        == mid.chunks[c].pixels && end.chunks[c].wf() by {
        assert(mid.chunks[c].wf());
    }
    assert(mid.untouched(4) || mid.bounded(4));
    if mid == start {
        assert(end.chunks =~= idled(chunks)) by {
            assert forall|c: int| 0 <= c < 9 implies end.chunks[c] == idled(chunks)[c] by {
                assert(start.untouched(c));
            }
        }
    }
}

/// Whether `after` is what one step may make of `before`: the idle step
/// where the centre has no dirty rectangle, else a scan of that rectangle
/// in some direction with some draws.
pub open spec fn step_of(before: Seq<ChunkView>, after: Seq<ChunkView>) -> bool {
    match before[4].dirty_rect {
        None => after == idled(before),
        Some(r) => exists|
            particles: Seq<Particle>,
            chunk_x: i32,
            chunk_y: i32,
            left_to_right: bool,
            table: Seq<Seq<Draws>>,
        |
            after == (#[trigger] stepped(
                started(before, particles, chunk_x, chunk_y),
                r,
                left_to_right,
                table,
            )).chunks,
    }
}

/// The idle step changes no buffer, and leaves a state on which the next
/// step is idle again.
pub proof fn lemma_idle_step_changes_no_buffer(chunks: Seq<ChunkView>)
    ensures
        idled(chunks).len() == chunks.len(),
        quiet(idled(chunks)),
        idled(idled(chunks)) == idled(chunks),
        forall|i: int|
            0 <= i < chunks.len() ==> {
                &&& (#[trigger] idled(chunks)[i]).pixels == chunks[i].pixels
                &&& idled(chunks)[i].colors == chunks[i].colors
                &&& idled(chunks)[i].lights == chunks[i].lights
                &&& idled(chunks)[i].dirty == chunks[i].dirty
            },
{
    assert(idled(idled(chunks)) =~= idled(chunks));
}

/// The chunks after `n` idle steps.
pub open spec fn idled_times(chunks: Seq<ChunkView>, n: nat) -> Seq<ChunkView>
    decreases n,
{
    if n == 0 {
        chunks
    } else {
        idled(idled_times(chunks, (n - 1) as nat))
    }
}

/// However often a chunk without a dirty rectangle is stepped, no buffer
/// changes: after the first step every further one finds the same state.
pub proof fn lemma_idle_steps_change_nothing(chunks: Seq<ChunkView>, n: nat)
    requires
        n >= 1,
    ensures
        idled_times(chunks, n) == idled(chunks),
    decreases n,
{
    if n > 1 {
        lemma_idle_steps_change_nothing(chunks, (n - 1) as nat);
        lemma_idle_step_changes_no_buffer(chunks);
    } else {
        assert(idled_times(chunks, 0) == chunks);
    }
}

/// Every run of steps that is longer than the heights of the sand add up to
/// comes to a state whose centre has no dirty rectangle: each step before
/// that makes some sand sink or leave the grid, and sand cannot sink for
/// ever.
pub proof fn lemma_settling_terminates(trace: Seq<Seq<ChunkView>>, from: int)
    requires
        0 <= from < trace.len(),
        steppable_views(trace[from]),
        forall|i: int| from <= i < trace.len() - 1 ==> step_of(#[trigger] trace[i], trace[i + 1]),
        trace.len() - from > potential(trace[from]) + 1,
    ensures
        exists|j: int| from <= j < trace.len() && (#[trigger] trace[j])[4].dirty_rect is None,
    decreases trace.len() - from,
{
    let before = trace[from];
    if before[4].dirty_rect is Some {
        let r = before[4].dirty_rect->0;
        let after = trace[from + 1];
        assert(step_of(trace[from], trace[from + 1]));
        let (particles, chunk_x, chunk_y, left_to_right, table) = choose|
            particles: Seq<Particle>,
            chunk_x: i32,
            chunk_y: i32,
            left_to_right: bool,
            table: Seq<Seq<Draws>>,
        |
            after == (#[trigger] stepped(
                started(before, particles, chunk_x, chunk_y),
                r,
                left_to_right,
                table,
            )).chunks;
        lemma_step_conserves_and_sinks(
            before,
            particles,
            chunk_x,
            chunk_y,
            r,
            left_to_right,
            table,
        );
        if after == idled(before) {
            assert(after[4].dirty_rect is None);
        } else {
            lemma_settling_terminates(trace, from + 1);
        }
    }
}

/// Over a run of steps the number of sand pixels in the grid never grows.
pub proof fn lemma_sand_never_grows(before: Seq<ChunkView>, after: Seq<ChunkView>)
    requires
        steppable_views(before),
        step_of(before, after),
    ensures
        steppable_views(after),
        sand_count(after) <= sand_count(before),
{
    if before[4].dirty_rect is Some {
        let r = before[4].dirty_rect->0;
        let (particles, chunk_x, chunk_y, left_to_right, table) = choose|
            particles: Seq<Particle>,
            chunk_x: i32,
            chunk_y: i32,
            left_to_right: bool,
            table: Seq<Seq<Draws>>,
        |
            after == (#[trigger] stepped(
                started(before, particles, chunk_x, chunk_y),
                r,
                left_to_right,
                table,
            )).chunks;
        lemma_step_conserves_and_sinks(
            before,
            particles,
            chunk_x,
            chunk_y,
            r,
            left_to_right,
            table,
        );
    } else {
        assert forall|c: int| 0 <= c < 9 implies (#[trigger] after[c]).pixels
            == before[c].pixels && after[c].wf() by {
            assert(before[c].wf());
        }
    }
}

} // verus!
