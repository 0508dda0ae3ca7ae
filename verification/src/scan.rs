//! What one step does to a chunk and its neighbours, as mathematics: the
//! dirty rectangle of the centre is scanned row by row from the bottom up,
//! every row in the same direction, and each pixel met is given its move.

use vstd::prelude::*;
use crate::chunk::{CHUNK_SIZE, ChunkView, Neighborhood, SimulationHelperChunk};
use crate::helper::{SimulationHelper, draws_in_range, left_behind, move_of, moved, placed};
use crate::particle::Particle;
use crate::rect::Rect;
use crate::rule::Draws;

verus! {

/// The neighbourhood after the pixel at `(x, y)` was given its move under
/// the draws `d`: the move is made, and if the pixel moved its cell is
/// cleared.
pub open spec fn processed(m: Neighborhood, x: int, y: int, d: Draws) -> Neighborhood {
    let cur = SimulationHelperChunk::pixel(m, x, y);
    let mv = move_of::<SimulationHelperChunk>(m, x, y, cur, d);
    let after = moved::<SimulationHelperChunk>(m, x, y, cur, mv, d);
    match left_behind(mv) {
        Some(mat) => placed::<SimulationHelperChunk>(after, x, y, mat),
        None => after,
    }
}

/// The column visited `k`-th in a row: counted from the left edge when the
/// scan runs left to right, from the right edge otherwise.
pub open spec fn column(r: Rect<i32>, left_to_right: bool, k: int) -> int {
    if left_to_right {
        r.x1 + k
    } else {
        r.x2 - 1 - k
    }
}

/// The neighbourhood after the first `n` cells of row `y` were processed,
/// the `k`-th with the draws `row[k]`.
pub open spec fn scanned_row(
    m: Neighborhood,
    r: Rect<i32>,
    left_to_right: bool,
    y: int,
    row: Seq<Draws>,
    n: nat,
) -> Neighborhood
    decreases n,
{
    if n == 0 {
        m
    } else {
        processed(
            scanned_row(m, r, left_to_right, y, row, (n - 1) as nat),
            column(r, left_to_right, n - 1),
            y,
            row[n - 1],
        )
    }
}

/// The neighbourhood after the lowest `n` rows of the rectangle were
/// scanned, the `j`-th from the bottom with the draws `table[j]`.
pub open spec fn scanned(
    m: Neighborhood,
    r: Rect<i32>,
    left_to_right: bool,
    table: Seq<Seq<Draws>>,
    n: nat,
) -> Neighborhood
    decreases n,
{
    if n == 0 {
        m
    } else {
        scanned_row(
            scanned(m, r, left_to_right, table, (n - 1) as nat),
            r,
            left_to_right,
            r.y2 - n,
            table[n - 1],
            (r.x2 - r.x1) as nat,
        )
    }
}

/// The neighbourhood at the start of a step: nothing written yet.
pub open spec fn started(
    chunks: Seq<ChunkView>,
    particles: Seq<Particle>,
    chunk_x: i32,
    chunk_y: i32,
) -> Neighborhood {
    Neighborhood {
        chunks,
        min_x: Seq::new(9, |i: int| (CHUNK_SIZE + 1) as u16),
        min_y: Seq::new(9, |i: int| (CHUNK_SIZE + 1) as u16),
        max_x: Seq::new(9, |i: int| 0u16),
        max_y: Seq::new(9, |i: int| 0u16),
        particles,
        chunk_x,
        chunk_y,
    }
}

/// The neighbourhood after a whole step over the rectangle `r`.
pub open spec fn stepped(
    start: Neighborhood,
    r: Rect<i32>,
    left_to_right: bool,
    table: Seq<Seq<Draws>>,
) -> Neighborhood {
    scanned(start, r, left_to_right, table, (r.y2 - r.y1) as nat).finished()
}

/// The chunks after a step that found nothing to do: every dirty rectangle
/// is cleared, and nothing else changes.
pub open spec fn idled(chunks: Seq<ChunkView>) -> Seq<ChunkView> {
    Seq::new(chunks.len(), |i: int| ChunkView { dirty_rect: None, ..chunks[i] })
}

/// Whether a table holds one set of draws, each in range, for every cell of
/// the rectangle.
pub open spec fn table_fits(table: Seq<Seq<Draws>>, r: Rect<i32>) -> bool {
    &&& table.len() == r.y2 - r.y1
    &&& forall|j: int| 0 <= j < table.len() ==> (#[trigger] table[j]).len() == r.x2 - r.x1
    &&& forall|j: int, k: int|
        0 <= j < table.len() && 0 <= k < table[j].len() ==> draws_in_range(#[trigger] table[j][k])
}

/// Only the draws of the cells already visited matter to a row.
pub proof fn lemma_row_reads_prefix(
    m: Neighborhood,
    r: Rect<i32>,
    left_to_right: bool,
    y: int,
    a: Seq<Draws>,
    b: Seq<Draws>,
    n: nat,
)
    requires
        n <= a.len(),
        n <= b.len(),
        forall|k: int| 0 <= k < n ==> a[k] == b[k],
    ensures
        scanned_row(m, r, left_to_right, y, a, n) == scanned_row(m, r, left_to_right, y, b, n),
    decreases n,
{
    if n > 0 {
        lemma_row_reads_prefix(m, r, left_to_right, y, a, b, (n - 1) as nat);
    }
}

/// Only the draws of the rows already scanned matter to a scan.
pub proof fn lemma_scan_reads_prefix(
    m: Neighborhood,
    r: Rect<i32>,
    left_to_right: bool,
    a: Seq<Seq<Draws>>,
    b: Seq<Seq<Draws>>,
    n: nat,
)
    requires
        n <= a.len(),
        n <= b.len(),
        forall|j: int| 0 <= j < n ==> a[j] == b[j],
    ensures
        scanned(m, r, left_to_right, a, n) == scanned(m, r, left_to_right, b, n),
    decreases n,
{
    if n > 0 {
        lemma_scan_reads_prefix(m, r, left_to_right, a, b, (n - 1) as nat);
    }
}

} // verus!
