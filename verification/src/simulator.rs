//! The simulation steps.

use vstd::prelude::*;
use crate::helper::{
    SimulationHelper, can_probe, draws_in_range, left_behind, move_of, moved, surroundings,
};
use crate::chunk::{
    CENTER_CHUNK, CHUNK_SIZE, SimulationHelperChunk, SimulatorChunkContext, tight_rect, views,
};
use crate::body_laws::lemma_pass_verdicts_are_true;
use crate::material::{MaterialInstance, PhysicsType};
use crate::pass::{
    body_scanned, body_start, body_stepped, cell_stepped, lemma_body_reads_prefix,
    lemma_cell_step_keeps_shapes, lemma_move_keeps_shapes, lemma_pass_reads_prefix, pass_scanned,
    pass_start, refreshed, same_shapes,
};
use crate::rigidbody::{FSRigidBody, Pose, SimulationHelperRigidBody, body_views};
use crate::world::ChunkHandler;
use crate::particle::{Particle, Position};
use crate::random::{chance, flip, fraction, fresh_generator};
use crate::rect::Rect;
use crate::rule::{BURIED_SPREAD, Draws, FALL_HOLD, launch};
use crate::scan::{
    column, idled, lemma_row_reads_prefix, lemma_scan_reads_prefix, processed, scanned,
    scanned_row, started, stepped, table_fits,
};

verus! {

/// The two steps of the simulation: one over a chunk and its neighbours,
/// one over the rigid bodies.
pub struct Simulator {}

/// A chunk context that holds nothing, to stand in for one that is in use.
fn vacant_context() -> (c: SimulatorChunkContext)
    ensures
        c@ == (crate::chunk::ChunkView {
            pixels: Seq::empty(),
            colors: Seq::empty(),
            lights: Seq::empty(),
            dirty: false,
            dirty_rect: None,
        }),
{
    SimulatorChunkContext {
        pixels: Vec::new(),
        colors: Vec::new(),
        lights: Vec::new(),
        dirty: false,
        dirty_rect: None,
    }
}

/// Whether nine chunk contexts may be stepped as the neighbourhood of the
/// middle one: every buffer has its length, and the dirty rectangle of the
/// centre, if there is one, lies within the chunk.
pub open spec fn steppable(chunk_data: Seq<SimulatorChunkContext>) -> bool {
    &&& chunk_data.len() == 9
    &&& forall|i: int| 0 <= i < 9 ==> (#[trigger] chunk_data[i])@.wf()
    &&& chunk_data[CENTER_CHUNK as int].dirty_rect matches Some(r) ==> r.within(CHUNK_SIZE as int)
}

/// Gives the pixel at `(x, y)` of the centre chunk its move.
fn process(x: i32, y: i32, helper: &mut SimulationHelperChunk, rng: &fastrand::Rng)
    requires
        old(helper)@.wf(),
        0 <= x < CHUNK_SIZE,
        0 <= y < CHUNK_SIZE,
    ensures
        final(helper)@.wf(),
        exists|d: Draws|
            draws_in_range(d) && final(helper)@ == #[trigger] processed(
                old(helper)@,
                x as int,
                y as int,
                d,
            ),
{
    let ghost m0 = helper@;
    let cur = helper.get_pixel_local(x, y);

    let res = Simulator::simulate_pixel(x, y, &cur, helper, rng);
    let ghost d = choose|d: Draws|
        {
            let mv = #[trigger] move_of::<SimulationHelperChunk>(m0, x as int, y as int, cur, d);
            &&& draws_in_range(d)
            &&& helper@ == moved::<SimulationHelperChunk>(m0, x as int, y as int, cur, mv, d)
            &&& res == left_behind(mv)
        };
    if let Some(mat) = res {
        helper.set_color_local(x, y, mat.color);
        helper.set_light_local(x, y, mat.light);
        helper.set_pixel_local(x, y, mat);
    }
    assert(helper@ == processed(m0, x as int, y as int, d));
}

/// Gives the pixel at `k` of the acting body, which lies in column `lx` and
/// row `ly` of its grid, its move.
fn step_cell(
    helper: &mut SimulationHelperRigidBody,
    pose: Pose,
    lx: u16,
    ly: u16,
    rng: &fastrand::Rng,
)
    requires
        old(helper).inv(),
        old(helper)@.bodies[old(helper)@.acting].pose == Some(pose),
        lx < old(helper)@.bodies[old(helper)@.acting].width,
        ly < old(helper)@.bodies[old(helper)@.acting].height,
    ensures
        final(helper).inv(),
        same_shapes(old(helper)@, final(helper)@),
        exists|d: Draws|
            draws_in_range(d) && final(helper)@ == #[trigger] cell_stepped(
                old(helper)@,
                lx + ly * old(helper)@.bodies[old(helper)@.acting].width,
                d,
            ),
{
    let ghost m0 = helper@;
    let i = helper.acting;
    assert(m0.bodies[i as int].wf());
    let width = helper.rigidbodies[i].width;
    let height = helper.rigidbodies[i].height;
    assert(0 <= ly * width && lx + ly * width < width * height <= 0xFFFF * 0xFFFF) by (nonlinear_arith)
        requires
            0 <= lx < width <= 0xFFFF,
            0 <= ly < height <= 0xFFFF,
    ;
    let k: usize = lx as usize + ly as usize * width as usize;
    proof {
        vstd::arithmetic::div_mod::lemma_fundamental_div_mod_converse(
            k as int,
            width as int,
            ly as int,
            lx as int,
        );
    }
    let p = pose.cell_to_world(lx, ly);
    if p.0 >= i32::MIN + 2 && p.0 <= i32::MAX - 2 && p.1 >= i32::MIN + 1 && p.1 <= i32::MAX - 5 {
        let cur = helper.rigidbodies[i].pixels[k];

        let res = Simulator::simulate_pixel(p.0, p.1, &cur, helper, rng);
        let ghost d = choose|d: Draws|
            {
                let mv = #[trigger] move_of::<SimulationHelperRigidBody>(
                    m0,
                    p.0 as int,
                    p.1 as int,
                    cur,
                    d,
                );
                &&& draws_in_range(d)
                &&& helper@ == moved::<SimulationHelperRigidBody>(
                    m0,
                    p.0 as int,
                    p.1 as int,
                    cur,
                    mv,
                    d,
                )
                &&& res == left_behind(mv)
            };
        proof {
            lemma_move_keeps_shapes(m0, p.0 as int, p.1 as int, cur, d);
            lemma_cell_step_keeps_shapes(m0, k as int, d);
        }
        if let Some(mat) = res {
            helper.set_cell(k, mat);
        }
        assert(helper@ == cell_stepped(m0, k as int, d));
    } else {
        let ghost d = Draws {
            fall: 0,
            spread: 0,
            fast: false,
            side: false,
            hop: false,
            drift: 0,
            plunge: 0,
        };
        assert(helper@ == cell_stepped(m0, k as int, d));
        assert(draws_in_range(d));
        proof {
            lemma_cell_step_keeps_shapes(m0, k as int, d);
        }
    }
}

/// Steps every pixel of the acting body, row by row.
fn step_body(helper: &mut SimulationHelperRigidBody, rng: &fastrand::Rng)
    requires
        old(helper).inv(),
    ensures
        final(helper).inv(),
        same_shapes(old(helper)@, final(helper)@),
        old(helper)@.bodies[old(helper)@.acting].pose is None ==> final(helper)@ == old(helper)@,
        old(helper)@.bodies[old(helper)@.acting].pose is Some ==> exists|ds: Seq<Draws>|
            {
                &&& ds.len() == old(helper)@.bodies[old(helper)@.acting].width * old(
                    helper,
                )@.bodies[old(helper)@.acting].height
                &&& forall|k: int| 0 <= k < ds.len() ==> draws_in_range(#[trigger] ds[k])
                &&& final(helper)@ == #[trigger] body_scanned(old(helper)@, ds, ds.len())
            },
{
    let ghost m0 = helper@;
    let i = helper.acting;
    assert(m0.bodies[i as int].wf());
    let rb_w = helper.rigidbodies[i].width;
    let rb_h = helper.rigidbodies[i].height;
    let body_opt = helper.rigidbodies[i].pose;

    if let Some(pose) = body_opt {
        let ghost mut ds: Seq<Draws> = Seq::empty();
        let mut rb_y: u16 = 0;
        while rb_y < rb_h
            invariant
                0 <= rb_y <= rb_h,
                m0.wf(),
                m0.bodies[m0.acting].width == rb_w,
                m0.bodies[m0.acting].height == rb_h,
                m0.bodies[m0.acting].pose == Some(pose),
                helper.inv(),
                same_shapes(m0, helper@),
                ds.len() == rb_y * rb_w,
                forall|k: int| 0 <= k < ds.len() ==> draws_in_range(#[trigger] ds[k]),
                helper@ == body_scanned(m0, ds, ds.len()),
            decreases rb_h - rb_y,
        {
            let mut rb_x: u16 = 0;
            while rb_x < rb_w
                invariant
                    0 <= rb_x <= rb_w,
                    0 <= rb_y < rb_h,
                    m0.wf(),
                    m0.bodies[m0.acting].width == rb_w,
                    m0.bodies[m0.acting].height == rb_h,
                    m0.bodies[m0.acting].pose == Some(pose),
                    helper.inv(),
                    same_shapes(m0, helper@),
                    ds.len() == rb_x + rb_y * rb_w,
                    forall|k: int| 0 <= k < ds.len() ==> draws_in_range(#[trigger] ds[k]),
                    helper@ == body_scanned(m0, ds, ds.len()),
                decreases rb_w - rb_x,
            {
                let ghost before = helper@;
                assert(before.bodies[before.acting].width == rb_w);
                step_cell(helper, pose, rb_x, rb_y, rng);
                proof {
                    let d = choose|d: Draws|
                        draws_in_range(d) && helper@ == #[trigger] cell_stepped(
                            before,
                            rb_x + rb_y * rb_w,
                            d,
                        );
                    let longer = ds.push(d);
                    lemma_body_reads_prefix(m0, ds, longer, ds.len());
                    assert(longer[ds.len() as int] == d);
                    ds = longer;
                }
                rb_x += 1;
            }
            proof {
                assert(rb_w + rb_y * rb_w == (rb_y + 1) * rb_w) by (nonlinear_arith);
            }
            rb_y += 1;
        }
        proof {
            assert(ds.len() == rb_w * rb_h) by (nonlinear_arith)
                requires
                    ds.len() == rb_y * rb_w,
                    rb_y == rb_h,
            ;
            assert(helper@ == body_scanned(m0, ds, ds.len()));
        }
    }
}

impl Simulator {
    /// Steps the pixel grid of every rigid body once, with a generator of
    /// its own, and says which bodies need a new shape.
    ///
    /// There is a table of draws under which bodies and particles end as
    /// the pass says. A body that changed and keeps its shape is marked for
    /// a new image; the world's chunks are only read.
    pub fn simulate_rigidbodies(
        chunk_handler: &ChunkHandler,
        rigidbodies: &mut Vec<FSRigidBody>,
        particles: &mut Vec<Particle>,
    ) -> (needs_remesh: Vec<bool>)
        requires
            chunk_handler.wf(),
            forall|i: int| 0 <= i < old(rigidbodies)@.len() ==> (#[trigger] old(rigidbodies)@[i])@.wf(),
        ensures
            final(rigidbodies)@.len() == old(rigidbodies)@.len(),
            needs_remesh@.len() == old(rigidbodies)@.len(),
            forall|i: int| 0 <= i < final(rigidbodies)@.len() ==> (#[trigger] final(rigidbodies)@[i])@.wf(),
            exists|table: Seq<Seq<Draws>>|
                {
                    let end = #[trigger] pass_scanned(
                        chunk_handler.loaded_chunks@,
                        pass_start(body_views(old(rigidbodies)@), old(particles)@),
                        table,
                        old(rigidbodies)@.len(),
                    );
                    &&& table.len() == old(rigidbodies)@.len()
                    &&& body_views(final(rigidbodies)@) == refreshed(end)
                    &&& final(particles)@ == end.particles
                    &&& needs_remesh@ == end.needs_remesh
                },
    {
        let rng = fresh_generator();
        Self::simulate_rigidbodies_with(chunk_handler, rigidbodies, particles, &rng)
    }

    /// Steps the pixel grid of every rigid body once, drawing from the
    /// generator given, and says which bodies need a new shape.
    ///
    /// There is a table of draws under which bodies and particles end as
    /// the pass says. A body that changed and keeps its shape is marked for
    /// a new image; the world's chunks are only read.
    pub fn simulate_rigidbodies_with(
        chunk_handler: &ChunkHandler,
        rigidbodies: &mut Vec<FSRigidBody>,
        particles: &mut Vec<Particle>,
        rng: &fastrand::Rng,
    ) -> (needs_remesh: Vec<bool>)
        requires
            chunk_handler.wf(),
            forall|i: int| 0 <= i < old(rigidbodies)@.len() ==> (#[trigger] old(rigidbodies)@[i])@.wf(),
        ensures
            final(rigidbodies)@.len() == old(rigidbodies)@.len(),
            needs_remesh@.len() == old(rigidbodies)@.len(),
            forall|i: int| 0 <= i < final(rigidbodies)@.len() ==> (#[trigger] final(rigidbodies)@[i])@.wf(),
            exists|table: Seq<Seq<Draws>>|
                {
                    let end = #[trigger] pass_scanned(
                        chunk_handler.loaded_chunks@,
                        pass_start(body_views(old(rigidbodies)@), old(particles)@),
                        table,
                        old(rigidbodies)@.len(),
                    );
                    &&& table.len() == old(rigidbodies)@.len()
                    &&& body_views(final(rigidbodies)@) == refreshed(end)
                    &&& final(particles)@ == end.particles
                    &&& needs_remesh@ == end.needs_remesh
                },
    {
        let ghost chunks = chunk_handler.loaded_chunks@;
        let ghost s0 = pass_start(body_views(old(rigidbodies)@), old(particles)@);
        let n = rigidbodies.len();
        let mut dirty: Vec<bool> = Vec::new();
        let mut needs_remesh: Vec<bool> = Vec::new();
        if n == 0 {
            proof {
                let table: Seq<Seq<Draws>> = Seq::empty();
                let end = pass_scanned(chunks, s0, table, 0);
                assert(body_views(rigidbodies@) =~= refreshed(end));
                assert(needs_remesh@ =~= end.needs_remesh);
            }
            return needs_remesh;
        }
        let mut held: Vec<FSRigidBody> = Vec::new();
        core::mem::swap(rigidbodies, &mut held);
        let mut taken: Vec<Particle> = Vec::new();
        core::mem::swap(particles, &mut taken);

        let mut helper = SimulationHelperRigidBody {
            air: MaterialInstance::air(),
            chunk_handler,
            rigidbodies: held,
            particles: taken,
            acting: 0,
            dirty: false,
            needs_remesh: false,
        };
        let ghost mut table: Seq<Seq<Draws>> = Seq::empty();
        proof {
            assert forall|k: int| 0 <= k < helper@.bodies.len() implies (#[trigger] helper@.bodies[k]).wf() by {
                assert(old(rigidbodies)@[k]@.wf());
            }
            assert(helper@.bodies =~= s0.bodies);
        }

        let mut i: usize = 0;
        while i < n
            invariant
                0 <= i <= n,
                n > 0,
                chunks == chunk_handler.loaded_chunks@,
                chunk_handler.wf(),
                helper@.chunks == chunks,
                helper.inv(),
                helper@.bodies.len() == n,
                table.len() == i,
                helper@.bodies == pass_scanned(chunks, s0, table, i as nat).bodies,
                helper@.particles == pass_scanned(chunks, s0, table, i as nat).particles,
                dirty@ == pass_scanned(chunks, s0, table, i as nat).dirty,
                needs_remesh@ == pass_scanned(chunks, s0, table, i as nat).needs_remesh,
                dirty@.len() == i,
                needs_remesh@.len() == i,
            decreases n - i,
        {
            let ghost s = pass_scanned(chunks, s0, table, i as nat);
            helper.acting = i;
            helper.dirty = false;
            helper.needs_remesh = false;
            let ghost begin = helper@;
            proof {
                assert(helper@.bodies =~= s.bodies);
                assert forall|k: int| 0 <= k < helper@.bodies.len() implies (#[trigger] helper@.bodies[k]).wf() by {
                }
                assert(begin == body_start(chunks, s, i as int));
            }
            step_body(&mut helper, rng);
            let ghost ds: Seq<Draws> = if begin.bodies[i as int].pose is Some {
                choose|ds: Seq<Draws>|
                    {
                        &&& ds.len() == begin.bodies[i as int].width * begin.bodies[i as int].height
                        &&& forall|k: int| 0 <= k < ds.len() ==> draws_in_range(#[trigger] ds[k])
                        &&& helper@ == #[trigger] body_scanned(begin, ds, ds.len())
                    }
            } else {
                Seq::empty()
            };
            dirty.push(helper.dirty);
            needs_remesh.push(helper.needs_remesh);
            proof {
                let taller = table.push(ds);
                lemma_pass_reads_prefix(chunks, s0, table, taller, i as nat);
                assert(taller[i as int] == ds);
                let next = body_stepped(chunks, s, i as int, ds);
                assert(pass_scanned(chunks, s0, taller, (i + 1) as nat) == next);
                assert(helper@.bodies == next.bodies);
                assert(helper@.particles == next.particles);
                assert(dirty@ =~= next.dirty);
                assert(needs_remesh@ =~= next.needs_remesh);
                table = taller;
            }
            i += 1;
        }

        let ghost end = pass_scanned(chunks, s0, table, n as nat);
        proof {
            assert forall|k: int| 0 <= k < n implies (#[trigger] helper.rigidbodies@[k])@.wf() by {
                assert(helper@.bodies[k].wf());
            }
            assert forall|k: int| 0 <= k < n implies (#[trigger] helper.rigidbodies@[k])@
                == end.bodies[k] by {
                assert(helper@.bodies[k] == end.bodies[k]);
            }
        }
        let mut j: usize = 0;
        while j < n
            invariant
                0 <= j <= n,
                helper.rigidbodies@.len() == n,
                end.bodies.len() == n,
                dirty@ == end.dirty,
                needs_remesh@ == end.needs_remesh,
                dirty@.len() == n,
                needs_remesh@.len() == n,
                helper@.particles == end.particles,
                forall|k: int| 0 <= k < n ==> (#[trigger] helper.rigidbodies@[k])@.wf(),
                forall|k: int| 0 <= k < j ==> (#[trigger] helper.rigidbodies@[k])@ == refreshed(end)[k],
                forall|k: int| j <= k < n ==> (#[trigger] helper.rigidbodies@[k])@ == end.bodies[k],
            decreases n - j,
        {
            if dirty[j] && !needs_remesh[j] {
                // don't bother updating the image if it's going to be destroyed anyway
                helper.rigidbodies[j].image_dirty = true;
            }
            j += 1;
        }

        let SimulationHelperRigidBody { rigidbodies: mut held, particles: mut taken, .. } = helper;
        core::mem::swap(rigidbodies, &mut held);
        core::mem::swap(particles, &mut taken);
        proof {
            assert(body_views(rigidbodies@) =~= refreshed(end));
            assert forall|k: int| 0 <= k < s0.bodies.len() implies (#[trigger] s0.bodies[k]).wf() by {
                assert(old(rigidbodies)@[k]@.wf());
            }
            lemma_pass_verdicts_are_true(chunks, s0, table, n as nat);
        }
        needs_remesh
    }

    /// Advances the dirty region of the middle one of nine chunks by one
    /// step, with a generator of its own.
    ///
    /// Where the centre has no dirty rectangle, nothing changes but that
    /// every dirty rectangle is cleared. Else there are a scan direction and
    /// a table of draws under which chunks and particles end as the scan
    /// says, each chunk with the tight bounds of what was written to it.
    pub fn simulate_chunk(
        chunk_x: i32,
        chunk_y: i32,
        chunk_data: &mut [SimulatorChunkContext; 9],
        particles: &mut Vec<Particle>,
    )
        requires
            steppable(old(chunk_data)@),
        ensures
            steppable(final(chunk_data)@),
            old(chunk_data)@[CENTER_CHUNK as int].dirty_rect is None ==> {
                &&& views(final(chunk_data)@) == idled(views(old(chunk_data)@))
                &&& final(particles)@ == old(particles)@
            },
            old(chunk_data)@[CENTER_CHUNK as int].dirty_rect matches Some(r) ==> exists|
                left_to_right: bool,
                table: Seq<Seq<Draws>>,
            |
                {
                    let end = #[trigger] stepped(
                        started(views(old(chunk_data)@), old(particles)@, chunk_x, chunk_y),
                        r,
                        left_to_right,
                        table,
                    );
                    &&& table_fits(table, r)
                    &&& views(final(chunk_data)@) == end.chunks
                    &&& final(particles)@ == end.particles
                },
    {
        let rng = fresh_generator();
        Self::simulate_chunk_with(chunk_x, chunk_y, chunk_data, particles, &rng);
    }

    /// Advances the dirty region of the middle one of nine chunks by one
    /// step, drawing from the generator given.
    ///
    /// Where the centre has no dirty rectangle, nothing changes but that
    /// every dirty rectangle is cleared. Else there are a scan direction and
    /// a table of draws under which chunks and particles end as the scan
    /// says, each chunk with the tight bounds of what was written to it.
    pub fn simulate_chunk_with(
        chunk_x: i32,
        chunk_y: i32,
        chunk_data: &mut [SimulatorChunkContext; 9],
        particles: &mut Vec<Particle>,
        rng: &fastrand::Rng,
    )
        requires
            steppable(old(chunk_data)@),
        ensures
            steppable(final(chunk_data)@),
            old(chunk_data)@[CENTER_CHUNK as int].dirty_rect is None ==> {
                &&& views(final(chunk_data)@) == idled(views(old(chunk_data)@))
                &&& final(particles)@ == old(particles)@
            },
            old(chunk_data)@[CENTER_CHUNK as int].dirty_rect matches Some(r) ==> exists|
                left_to_right: bool,
                table: Seq<Seq<Draws>>,
            |
                {
                    let end = #[trigger] stepped(
                        started(views(old(chunk_data)@), old(particles)@, chunk_x, chunk_y),
                        r,
                        left_to_right,
                        table,
                    );
                    &&& table_fits(table, r)
                    &&& views(final(chunk_data)@) == end.chunks
                    &&& final(particles)@ == end.particles
                },
    {
        let my_dirty_rect_o = chunk_data[CENTER_CHUNK].dirty_rect;
        if my_dirty_rect_o.is_none() {
            let mut i: usize = 0;
            while i < 9
                invariant
                    0 <= i <= 9,
                    steppable(old(chunk_data)@),
                    forall|k: int|
                        0 <= k < i ==> (#[trigger] chunk_data@[k])@ == idled(
                            views(old(chunk_data)@),
                        )[k],
                    forall|k: int| i <= k < 9 ==> chunk_data@[k] == old(chunk_data)@[k],
                decreases 9 - i,
            {
                chunk_data[i].dirty_rect = None;
                i += 1;
            }
            proof {
                assert(views(chunk_data@) =~= idled(views(old(chunk_data)@)));
                assert forall|k: int| 0 <= k < 9 implies (#[trigger] chunk_data@[k])@.wf() by {
                    assert(old(chunk_data)@[k]@.wf());
                }
            }
            return;
        }
        let my_dirty_rect: Rect<i32> = my_dirty_rect_o.unwrap();

        let mut held: [SimulatorChunkContext; 9] = [
            vacant_context(),
            vacant_context(),
            vacant_context(),
            vacant_context(),
            vacant_context(),
            vacant_context(),
            vacant_context(),
            vacant_context(),
            vacant_context(),
        ];
        core::mem::swap(chunk_data, &mut held);
        let mut taken: Vec<Particle> = Vec::new();
        core::mem::swap(particles, &mut taken);

        let mut helper = SimulationHelperChunk {
            chunk_data: held,
            min_x: [CHUNK_SIZE + 1;9],
            min_y: [CHUNK_SIZE + 1;9],
            max_x: [0;9],
            max_y: [0;9],
            particles: taken,
            chunk_x,
            chunk_y,
        };
        let ghost start = started(views(old(chunk_data)@), old(particles)@, chunk_x, chunk_y);
        proof {
            assert(helper@.min_x =~= start.min_x);
            assert(helper@.min_y =~= start.min_y);
            assert(helper@.max_x =~= start.max_x);
            assert(helper@.max_y =~= start.max_y);
            assert(helper@ == start);
            assert forall|c: int| 0 <= c < 9 implies (#[trigger] start.chunks[c]).wf() by {
                assert(old(chunk_data)@[c]@.wf());
            }
            assert forall|c: int| 0 <= c < 9 implies #[trigger] start.untouched(c)
                || start.bounded(c) by {
                assert(start.untouched(c));
            }
        }

        let left_to_right = flip(rng);
        let ghost mut table: Seq<Seq<Draws>> = Seq::empty();
        let width: i32 = my_dirty_rect.x2 - my_dirty_rect.x1;
        let mut y: i32 = my_dirty_rect.y2;
        while y > my_dirty_rect.y1
            invariant
                my_dirty_rect.within(CHUNK_SIZE as int),
                width == my_dirty_rect.x2 - my_dirty_rect.x1,
                my_dirty_rect.y1 <= y <= my_dirty_rect.y2,
                helper@.wf(),
                table.len() == my_dirty_rect.y2 - y,
                forall|j: int| 0 <= j < table.len() ==> (#[trigger] table[j]).len() == width,
                forall|j: int, k: int|
                    0 <= j < table.len() && 0 <= k < table[j].len() ==> draws_in_range(
                        #[trigger] table[j][k],
                    ),
                helper@ == scanned(start, my_dirty_rect, left_to_right, table, table.len()),
            decreases y - my_dirty_rect.y1,
        {
            y -= 1;
            let ghost below = helper@;
            let ghost mut row: Seq<Draws> = Seq::empty();
            let mut k: i32 = 0;
            while k < width
                invariant
                    my_dirty_rect.within(CHUNK_SIZE as int),
                    width == my_dirty_rect.x2 - my_dirty_rect.x1,
                    my_dirty_rect.y1 <= y < my_dirty_rect.y2,
                    0 <= k <= width,
                    helper@.wf(),
                    row.len() == k,
                    forall|i: int| 0 <= i < row.len() ==> draws_in_range(#[trigger] row[i]),
                    helper@ == scanned_row(
                        below,
                        my_dirty_rect,
                        left_to_right,
                        y as int,
                        row,
                        row.len(),
                    ),
                decreases width - k,
            {
                let x: i32 = if left_to_right {
                    my_dirty_rect.x1 + k
                } else {
                    my_dirty_rect.x2 - 1 - k
                };
                let ghost before = helper@;
                process(x, y, &mut helper, rng);
                proof {
                    let d = choose|d: Draws|
                        draws_in_range(d) && helper@ == #[trigger] processed(
                            before,
                            x as int,
                            y as int,
                            d,
                        );
                    let longer = row.push(d);
                    lemma_row_reads_prefix(
                        below,
                        my_dirty_rect,
                        left_to_right,
                        y as int,
                        row,
                        longer,
                        row.len(),
                    );
                    assert(x == column(my_dirty_rect, left_to_right, k as int));
                    assert(longer[k as int] == d);
                    row = longer;
                }
                k += 1;
            }
            proof {
                let taller = table.push(row);
                lemma_scan_reads_prefix(
                    start,
                    my_dirty_rect,
                    left_to_right,
                    table,
                    taller,
                    table.len(),
                );
                assert(taller[table.len() as int] == row);
                assert(my_dirty_rect.y2 - taller.len() == y);
                table = taller;
            }
        }

        helper.finish_dirty_rects();
        proof {
            assert(table_fits(table, my_dirty_rect));
            assert(helper@ == stepped(start, my_dirty_rect, left_to_right, table));
        }
        let SimulationHelperChunk { chunk_data: mut held, particles: mut taken, .. } = helper;
        core::mem::swap(chunk_data, &mut held);
        core::mem::swap(particles, &mut taken);
        proof {
            let end = stepped(start, my_dirty_rect, left_to_right, table);
            assert(views(chunk_data@) == end.chunks);
            assert forall|c: int| 0 <= c < 9 implies (#[trigger] chunk_data@[c])@.wf() by {
                assert(end.chunks[c].wf());
            }
            assert(end.untouched(4) || end.bounded(4));
            assert(chunk_data@[4]@ == end.chunks[4]);
            assert(end.chunks[4].dirty_rect == tight_rect(
                end.min_x[4],
                end.min_y[4],
                end.max_x[4],
                end.max_y[4],
            ));
        }
    }

    /// Applies the transition rule to the pixel `cur` standing at `(x, y)`.
    ///
    /// Whatever the generator yields, there are draws under which the helper
    /// ends as the rule says and the result is what replaces the source cell:
    /// air when the pixel moved, nothing when it stayed.
    pub fn simulate_pixel<H: SimulationHelper>(
        x: i32,
        y: i32,
        cur: &MaterialInstance,
        helper: &mut H,
        rng: &fastrand::Rng,
    ) -> (new_mat: Option<MaterialInstance>)
        requires
            old(helper).inv(),
            can_probe::<H>(x as int, y as int),
        ensures
            final(helper).inv(),
            exists|d: Draws|
                {
                    let mv = #[trigger] move_of::<H>(
                        old(helper).model(),
                        x as int,
                        y as int,
                        *cur,
                        d,
                    );
                    &&& draws_in_range(d)
                    &&& final(helper).model() == moved::<H>(
                        old(helper).model(),
                        x as int,
                        y as int,
                        *cur,
                        mv,
                        d,
                    )
                    &&& new_mat == left_behind(mv)
                },
    {
        let ghost m0 = helper.model();
        let ghost mut d = Draws {
            fall: 0,
            spread: 0,
            fast: false,
            side: false,
            hop: false,
            drift: 0,
            plunge: 0,
        };
        let mut new_mat: Option<MaterialInstance> = None;

        if cur.physics == PhysicsType::Sand {
            assert(H::in_reach(x as int, y + 1) && H::in_reach(x - 1, y + 1) && H::in_reach(
                x + 1,
                y + 1,
            ) && H::in_reach(x as int, y + 2) && H::in_reach(x as int, y + 3) && H::in_reach(
                x as int,
                y + 4,
            ) && H::in_reach(x as int, y + 5) && H::in_reach(x as int, y - 1) && H::in_reach(
                x - 2,
                y + 1,
            ) && H::in_reach(x - 2, y + 2) && H::in_reach(x + 2, y + 1) && H::in_reach(
                x + 2,
                y + 2,
            ));
            let ghost s = surroundings::<H>(m0, x as int, y as int);

            let below_can = helper.borrow_pixel_local(x, y + 1).physics == PhysicsType::Air;
            let bl_can = helper.borrow_pixel_local(x - 1, y + 1).physics == PhysicsType::Air;
            let br_can = helper.borrow_pixel_local(x + 1, y + 1).physics == PhysicsType::Air;

            let mut fall = false;
            if below_can {
                if !(br_can || bl_can) {
                    fall = true;
                } else {
                    let c: u32 = chance(rng);
                    proof {
                        d = Draws { fall: c, ..d };
                    }
                    fall = c > FALL_HOLD;
                }
            }

            if fall {
                // the cell directly below is known to be open; look past it
                let empty_below = helper.borrow_pixel_local(x, y + 2).physics == PhysicsType::Air
                    && helper.borrow_pixel_local(x, y + 3).physics == PhysicsType::Air
                    && helper.borrow_pixel_local(x, y + 4).physics == PhysicsType::Air
                    && helper.borrow_pixel_local(x, y + 5).physics == PhysicsType::Air;

                if empty_below {
                    let drift: u64 = fraction(rng);
                    let plunge: u64 = fraction(rng);
                    proof {
                        d = Draws { drift, plunge, ..d };
                    }
                    helper.add_particle(
                        *cur,
                        Position { x: x as i64, y: y as i64 },
                        launch(drift, plunge),
                    );
                } else {
                    let fast = flip(rng);
                    proof {
                        d = Draws { fast, ..d };
                    }
                    if fast && helper.borrow_pixel_local(x, y + 2).physics == PhysicsType::Air {
                        helper.set_color_local(x, y + 2, cur.color);
                        helper.set_light_local(x, y + 2, cur.light);
                        helper.set_pixel_local(x, y + 2, *cur);
                    } else {
                        helper.set_color_local(x, y + 1, cur.color);
                        helper.set_light_local(x, y + 1, cur.light);
                        helper.set_pixel_local(x, y + 1, *cur);
                    }
                }

                new_mat = Some(MaterialInstance::air());
            } else {
                let above_air = helper.borrow_pixel_local(x, y - 1).physics == PhysicsType::Air;
                let mut spread = above_air;
                if !above_air {
                    let c: u32 = chance(rng);
                    proof {
                        d = Draws { spread: c, ..d };
                    }
                    spread = c > BURIED_SPREAD;
                }
                if spread {
                    if bl_can && br_can {
                        let side = flip(rng);
                        proof {
                            d = Draws { side, ..d };
                        }
                        if side {
                            helper.set_color_local(x + 1, y + 1, cur.color);
                            helper.set_light_local(x + 1, y + 1, cur.light);
                            helper.set_pixel_local(x + 1, y + 1, *cur);
                        } else {
                            helper.set_color_local(x - 1, y + 1, cur.color);
                            helper.set_light_local(x - 1, y + 1, cur.light);
                            helper.set_pixel_local(x - 1, y + 1, *cur);
                        }
                        new_mat = Some(MaterialInstance::air());
                    } else if bl_can {
                        let hop = flip(rng);
                        proof {
                            d = Draws { hop, ..d };
                        }
                        if hop && helper.borrow_pixel_local(x - 2, y + 1).physics
                            == PhysicsType::Air && helper.borrow_pixel_local(x - 2, y + 2).physics
                            != PhysicsType::Air {
                            helper.set_color_local(x - 2, y + 1, cur.color);
                            helper.set_light_local(x - 2, y + 1, cur.light);
                            helper.set_pixel_local(x - 2, y + 1, *cur);
                        } else {
                            helper.set_color_local(x - 1, y + 1, cur.color);
                            helper.set_light_local(x - 1, y + 1, cur.light);
                            helper.set_pixel_local(x - 1, y + 1, *cur);
                        }
                        new_mat = Some(MaterialInstance::air());
                    } else if br_can {
                        let hop = flip(rng);
                        proof {
                            d = Draws { hop, ..d };
                        }
                        if hop && helper.borrow_pixel_local(x + 2, y + 1).physics
                            == PhysicsType::Air && helper.borrow_pixel_local(x + 2, y + 2).physics
                            != PhysicsType::Air {
                            helper.set_color_local(x + 2, y + 1, cur.color);
                            helper.set_light_local(x + 2, y + 1, cur.light);
                            helper.set_pixel_local(x + 2, y + 1, *cur);
                        } else {
                            helper.set_color_local(x + 1, y + 1, cur.color);
                            helper.set_light_local(x + 1, y + 1, cur.light);
                            helper.set_pixel_local(x + 1, y + 1, *cur);
                        }
                        new_mat = Some(MaterialInstance::air());
                    }
                }
            }
        }

        proof {
            let mv = move_of::<H>(m0, x as int, y as int, *cur, d);
            assert(draws_in_range(d));
            assert(helper.model() == moved::<H>(m0, x as int, y as int, *cur, mv, d));
            assert(new_mat == left_behind(mv));
        }
        new_mat
    }
}

} // verus!
