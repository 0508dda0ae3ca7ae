//! What holds of every step of a rigid body, whatever the draws and
//! wherever the body stands.

use vstd::prelude::*;
use crate::helper::{left_behind, move_of, moved};
use crate::material::{MaterialInstance, PhysicsType};
use crate::pass::{
    PassState, body_scanned, body_start, body_stepped, cell_stepped, lemma_cell_step_keeps_shapes,
    lemma_move_keeps_shapes, pass_scanned, probe_ok, same_shapes,
};
use crate::rigidbody::{BodyView, RigidWorld, SimulationHelperRigidBody};
use crate::world::WorldChunk;
use crate::rule::{Draws, Move};

verus! {

/// Whether some cell is solid in one grid and not in the other.
pub open spec fn solid_cells_differ(a: Seq<MaterialInstance>, b: Seq<MaterialInstance>) -> bool {
    exists|idx: int| 0 <= idx < a.len() && (#[trigger] a[idx]).is_solid() != b[idx].is_solid()
}

/// How the acting body's step so far relates to where it began: no cell has
/// become solid, the body is marked for a new shape exactly if a solid cell
/// was lost, and a body that is not marked dirty is as it was.
pub open spec fn step_record_is_true(begin: RigidWorld, now: RigidWorld) -> bool {
    let a = begin.bodies[begin.acting].pixels;
    let b = now.bodies[now.acting].pixels;
    &&& forall|idx: int| 0 <= idx < a.len() && (#[trigger] b[idx]).is_solid() ==> a[idx].is_solid()
    &&& now.needs_remesh <==> solid_cells_differ(a, b)
    &&& !now.dirty ==> now.bodies == begin.bodies
    &&& now.needs_remesh ==> now.dirty
}

/// Writing a pixel that is not solid into the acting body keeps the record
/// of the step true.
pub proof fn lemma_cell_write_keeps_record(
    begin: RigidWorld,
    m: RigidWorld,
    idx: int,
    mat: MaterialInstance,
)
    requires
        m.wf(),
        same_shapes(begin, m),
        step_record_is_true(begin, m),
        0 <= idx < m.bodies[m.acting].pixels.len(),
        !mat.is_solid(),
    ensures
        step_record_is_true(begin, m.with_cell(idx, mat)),
{
    let e = m.with_cell(idx, mat);
    let a = begin.bodies[begin.acting].pixels;
    let b = m.bodies[m.acting].pixels;
    let c = e.bodies[e.acting].pixels;
    assert(c == b.update(idx, mat));
    if solid_cells_differ(a, b) {
        let k = choose|k: int| 0 <= k < a.len() && (#[trigger] a[k]).is_solid() != b[k].is_solid();
        assert(a[k].is_solid() != c[k].is_solid());
    }
    if b[idx].is_solid() != mat.is_solid() {
        assert(a[idx].is_solid() != c[idx].is_solid());
    }
    if solid_cells_differ(a, c) {
        let k = choose|k: int| 0 <= k < a.len() && (#[trigger] a[k]).is_solid() != c[k].is_solid();
        if k != idx {
            assert(a[k].is_solid() != b[k].is_solid());
        }
    }
}

/// Stepping one pixel keeps the record of the step true.
pub proof fn lemma_cell_step_keeps_record(begin: RigidWorld, m: RigidWorld, k: int, d: Draws)
    requires
        m.wf(),
        same_shapes(begin, m),
        step_record_is_true(begin, m),
        0 <= k < m.bodies[m.acting].pixels.len(),
    ensures
        step_record_is_true(begin, cell_stepped(m, k, d)),
        same_shapes(begin, cell_stepped(m, k, d)),
        cell_stepped(m, k, d).wf(),
{
    lemma_cell_step_keeps_shapes(m, k, d);
    let b = m.bodies[m.acting];
    assert(b.wf());
    if b.pose is Some {
        let pose = b.pose->0;
        let p = pose.to_world((k % (b.width as int)) as u16, (k / (b.width as int)) as u16);
        if probe_ok(p) {
            let cur = b.pixels[k];
            let x = p.0 as int;
            let y = p.1 as int;
            let mv = move_of::<SimulationHelperRigidBody>(m, x, y, cur, d);
            let after = moved::<SimulationHelperRigidBody>(m, x, y, cur, mv, d);
            lemma_move_keeps_shapes(m, x, y, cur, d);
            match mv {
                Move::Shift { dx, dy } => {
                    assert(cur.physics == PhysicsType::Sand);
                    let c = pose.to_body((x + dx) as i32, (y + dy) as i32);
                    if b.has_cell(c) {
                        assert(0 <= c.0 + c.1 * b.width < b.width * b.height) by (nonlinear_arith)
                            requires
                                0 <= c.0 < b.width,
                                0 <= c.1 < b.height,
                        ;
                        lemma_cell_write_keeps_record(begin, m, b.index_of(c), cur);
                    }
                },
                _ => {},
            }
            assert(step_record_is_true(begin, after));
            assert(same_shapes(begin, after));
            if left_behind(mv) is Some {
                lemma_cell_write_keeps_record(begin, after, k, left_behind(mv)->0);
            }
        }
    }
}

/// Stepping a body never makes a cell solid. The body is marked for a new
/// shape exactly if one of its solid cells stopped being solid, so a step
/// that leaves the solid cells as they were asks for no new shape; and a
/// body that is not marked dirty has not changed at all.
pub proof fn lemma_remesh_tells_solid_cells_lost(m: RigidWorld, ds: Seq<Draws>, n: nat)
    requires
        m.wf(),
        !m.dirty,
        !m.needs_remesh,
        n <= m.bodies[m.acting].pixels.len(),
    ensures
        step_record_is_true(m, body_scanned(m, ds, n)),
        same_shapes(m, body_scanned(m, ds, n)),
        body_scanned(m, ds, n).wf(),
    decreases n,
{
    if n > 0 {
        lemma_remesh_tells_solid_cells_lost(m, ds, (n - 1) as nat);
        lemma_cell_step_keeps_record(m, body_scanned(m, ds, (n - 1) as nat), n - 1, ds[n - 1]);
    }
}

/// Whether the bodies of a pass and what is recorded of them fit the bodies
/// the pass began with: every body has its size and pose, a body not yet
/// stepped is as it was, and of each body stepped the record is true.
pub open spec fn pass_record_is_true(begin: Seq<BodyView>, s: PassState) -> bool {
    &&& s.bodies.len() == begin.len()
    &&& s.dirty.len() == s.needs_remesh.len() <= begin.len()
    &&& forall|i: int|
        0 <= i < begin.len() ==> {
            &&& (#[trigger] s.bodies[i]).wf()
            &&& s.bodies[i].width == begin[i].width
            &&& s.bodies[i].height == begin[i].height
            &&& s.bodies[i].pose == begin[i].pose
            &&& s.bodies[i].image_dirty == begin[i].image_dirty
        }
    &&& forall|i: int| s.dirty.len() <= i < begin.len() ==> #[trigger] s.bodies[i] == begin[i]
    &&& forall|i: int|
        0 <= i < s.dirty.len() ==> {
            &&& #[trigger] s.needs_remesh[i] <==> solid_cells_differ(
                begin[i].pixels,
                s.bodies[i].pixels,
            )
            &&& !s.dirty[i] ==> s.bodies[i] == begin[i]
            &&& s.needs_remesh[i] ==> s.dirty[i]
            &&& begin[i].pose is None ==> !s.dirty[i]
        }
}

/// Over a whole pass: a body is asked to be given a new shape exactly if
/// one of its solid cells stopped being solid, a body that the physics
/// engine does not know or that is not marked dirty is as it was, and no
/// body changes its size or pose.
pub proof fn lemma_pass_verdicts_are_true(
    chunks: Seq<WorldChunk>,
    s0: PassState,
    table: Seq<Seq<Draws>>,
    n: nat,
)
    requires
        s0.dirty.len() == 0,
        s0.needs_remesh.len() == 0,
        forall|i: int| 0 <= i < s0.bodies.len() ==> (#[trigger] s0.bodies[i]).wf(),
        forall|i: int| 0 <= i < chunks.len() ==> (#[trigger] chunks[i]).wf(),
        n <= s0.bodies.len(),
    ensures
        pass_record_is_true(s0.bodies, pass_scanned(chunks, s0, table, n)),
        pass_scanned(chunks, s0, table, n).dirty.len() == n,
    decreases n,
{
    if n > 0 {
        lemma_pass_verdicts_are_true(chunks, s0, table, (n - 1) as nat);
        let s = pass_scanned(chunks, s0, table, (n - 1) as nat);
        let i = n - 1;
        let e = body_stepped(chunks, s, i, table[i]);
        let b = s.bodies[i];
        assert(b == s0.bodies[i]);
        if b.pose is Some {
            let begin = body_start(chunks, s, i);
            lemma_remesh_tells_solid_cells_lost(begin, table[i], (b.width * b.height) as nat);
            let end = body_scanned(begin, table[i], (b.width * b.height) as nat);
            assert forall|k: int| 0 <= k < s0.bodies.len() implies ({
                &&& (#[trigger] e.bodies[k]).wf()
                &&& e.bodies[k].width == s0.bodies[k].width
                &&& e.bodies[k].height == s0.bodies[k].height
                &&& e.bodies[k].pose == s0.bodies[k].pose
                &&& e.bodies[k].image_dirty == s0.bodies[k].image_dirty
            }) by {
                assert(s.bodies[k].wf());
            }
            assert forall|k: int| 0 <= k < e.dirty.len() implies ({
                &&& #[trigger] e.needs_remesh[k] <==> solid_cells_differ(
                    s0.bodies[k].pixels,
                    e.bodies[k].pixels,
                )
                &&& !e.dirty[k] ==> e.bodies[k] == s0.bodies[k]
                &&& e.needs_remesh[k] ==> e.dirty[k]
                &&& s0.bodies[k].pose is None ==> !e.dirty[k]
            }) by {
                if k < i {
                    assert(e.bodies[k] == s.bodies[k]);
                    assert(s.needs_remesh[k] <==> solid_cells_differ(
                        s0.bodies[k].pixels,
                        s.bodies[k].pixels,
                    ));
                }
            }
        } else {
            assert forall|k: int| 0 <= k < e.dirty.len() implies ({
                &&& #[trigger] e.needs_remesh[k] <==> solid_cells_differ(
                    s0.bodies[k].pixels,
                    e.bodies[k].pixels,
                )
                &&& !e.dirty[k] ==> e.bodies[k] == s0.bodies[k]
                &&& e.needs_remesh[k] ==> e.dirty[k]
                &&& s0.bodies[k].pose is None ==> !e.dirty[k]
            }) by {
                if k < i {
                    assert(s.needs_remesh[k] <==> solid_cells_differ(
                        s0.bodies[k].pixels,
                        s.bodies[k].pixels,
                    ));
                }
            }
        }
        assert forall|k: int| e.dirty.len() <= k < s0.bodies.len() implies #[trigger] e.bodies[k]
            == s0.bodies[k] by {
            assert(s.bodies[k] == s0.bodies[k]);
        }
        assert(pass_scanned(chunks, s0, table, n) == e);
        assert(pass_record_is_true(s0.bodies, e));
    }
}

} // verus!
