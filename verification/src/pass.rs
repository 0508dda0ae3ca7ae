//! What one pass over the rigid bodies does, as mathematics: the bodies are
//! stepped one after the other, each cell by cell and row by row, and a body
//! that the physics engine does not know is left alone.

use vstd::prelude::*;
use crate::helper::{left_behind, move_of, moved};
use crate::material::MaterialInstance;
use crate::particle::Particle;
use crate::rigidbody::{BodyView, RigidWorld, SimulationHelperRigidBody};
use crate::rule::{Draws, Move};
use crate::world::WorldChunk;

verus! {

/// Whether the rule can probe around a world cell without leaving the range
/// of the coordinates.
pub open spec fn probe_ok(p: (i32, i32)) -> bool {
    i32::MIN + 2 <= p.0 <= i32::MAX - 2 && i32::MIN + 1 <= p.1 <= i32::MAX - 5
}

/// The world after the acting body's pixel at `k` was given its move under
/// the draws `d`. The pixel stands where the body's pose puts its cell; a
/// pixel that stands too close to the end of the coordinate range is left
/// alone.
pub open spec fn cell_stepped(m: RigidWorld, k: int, d: Draws) -> RigidWorld {
    let b = m.bodies[m.acting];
    match b.pose {
        None => m,
        Some(pose) => {
            let p = pose.to_world((k % (b.width as int)) as u16, (k / (b.width as int)) as u16);
            if !probe_ok(p) {
                m
            } else {
                let cur = b.pixels[k];
                let mv = move_of::<SimulationHelperRigidBody>(m, p.0 as int, p.1 as int, cur, d);
                let after = moved::<SimulationHelperRigidBody>(
                    m,
                    p.0 as int,
                    p.1 as int,
                    cur,
                    mv,
                    d,
                );
                match left_behind(mv) {
                    Some(mat) => after.with_cell(k, mat),
                    None => after,
                }
            }
        },
    }
}

/// The world after the first `n` pixels of the acting body were stepped,
/// the `k`-th with the draws `ds[k]`.
pub open spec fn body_scanned(m: RigidWorld, ds: Seq<Draws>, n: nat) -> RigidWorld
    decreases n,
{
    if n == 0 {
        m
    } else {
        cell_stepped(body_scanned(m, ds, (n - 1) as nat), n - 1, ds[n - 1])
    }
}

/// How far a pass has come: the bodies and particles as they are, and for
/// each body stepped so far whether it changed and whether it needs a new
/// shape.
pub struct PassState {
    pub bodies: Seq<BodyView>,
    pub particles: Seq<Particle>,
    pub dirty: Seq<bool>,
    pub needs_remesh: Seq<bool>,
}

/// The world as body `i` sees it when its step begins.
pub open spec fn body_start(chunks: Seq<WorldChunk>, s: PassState, i: int) -> RigidWorld {
    RigidWorld {
        chunks,
        bodies: s.bodies,
        acting: i,
        particles: s.particles,
        dirty: false,
        needs_remesh: false,
    }
}

/// The pass after body `i` was stepped with the draws `ds`.
pub open spec fn body_stepped(chunks: Seq<WorldChunk>, s: PassState, i: int, ds: Seq<Draws>) -> PassState {
    let b = s.bodies[i];
    if b.pose is Some {
        let end = body_scanned(body_start(chunks, s, i), ds, (b.width * b.height) as nat);
        PassState {
            bodies: end.bodies,
            particles: end.particles,
            dirty: s.dirty.push(end.dirty),
            needs_remesh: s.needs_remesh.push(end.needs_remesh),
        }
    } else {
        PassState { dirty: s.dirty.push(false), needs_remesh: s.needs_remesh.push(false), ..s }
    }
}

/// The pass after the first `n` bodies were stepped, the `i`-th with the
/// draws `table[i]`.
pub open spec fn pass_scanned(
    chunks: Seq<WorldChunk>,
    s: PassState,
    table: Seq<Seq<Draws>>,
    n: nat,
) -> PassState
    decreases n,
{
    if n == 0 {
        s
    } else {
        body_stepped(chunks, pass_scanned(chunks, s, table, (n - 1) as nat), n - 1, table[n - 1])
    }
}

/// The pass before any body was stepped.
pub open spec fn pass_start(bodies: Seq<BodyView>, particles: Seq<Particle>) -> PassState {
    PassState { bodies, particles, dirty: Seq::empty(), needs_remesh: Seq::empty() }
}

/// The bodies at the end of a pass: one that changed and keeps its shape is
/// marked for a new image.
pub open spec fn refreshed(s: PassState) -> Seq<BodyView> {
    Seq::new(
        s.bodies.len(),
        |i: int|
            BodyView {
                image_dirty: s.bodies[i].image_dirty || (s.dirty[i] && !s.needs_remesh[i]),
                ..s.bodies[i]
            },
    )
}

/// Only the draws of the pixels already stepped matter to a body's scan.
pub proof fn lemma_body_reads_prefix(m: RigidWorld, a: Seq<Draws>, b: Seq<Draws>, n: nat)
    requires
        n <= a.len(),
        n <= b.len(),
        forall|k: int| 0 <= k < n ==> a[k] == b[k],
    ensures
        body_scanned(m, a, n) == body_scanned(m, b, n),
    decreases n,
{
    if n > 0 {
        lemma_body_reads_prefix(m, a, b, (n - 1) as nat);
    }
}

/// Only the draws of the bodies already stepped matter to a pass.
pub proof fn lemma_pass_reads_prefix(
    chunks: Seq<WorldChunk>,
    s: PassState,
    a: Seq<Seq<Draws>>,
    b: Seq<Seq<Draws>>,
    n: nat,
)
    requires
        n <= a.len(),
        n <= b.len(),
        forall|i: int| 0 <= i < n ==> a[i] == b[i],
    ensures
        pass_scanned(chunks, s, a, n) == pass_scanned(chunks, s, b, n),
    decreases n,
{
    if n > 0 {
        lemma_pass_reads_prefix(chunks, s, a, b, (n - 1) as nat);
    }
}

/// Stepping a pixel leaves the list of bodies as long as it was, keeps every
/// body's size and pose, and keeps every grid as long as it was.
pub proof fn lemma_cell_step_keeps_shapes(m: RigidWorld, k: int, d: Draws)
    requires
        m.wf(),
        0 <= k < m.bodies[m.acting].pixels.len(),
    ensures
        same_shapes(m, cell_stepped(m, k, d)),
        cell_stepped(m, k, d).wf(),
{
    let b = m.bodies[m.acting];
    let e = cell_stepped(m, k, d);
    if b.pose is Some {
        let pose = b.pose->0;
        let p = pose.to_world((k % (b.width as int)) as u16, (k / (b.width as int)) as u16);
        if probe_ok(p) {
            let cur = b.pixels[k];
            let mv = move_of::<SimulationHelperRigidBody>(m, p.0 as int, p.1 as int, cur, d);
            let after = moved::<SimulationHelperRigidBody>(m, p.0 as int, p.1 as int, cur, mv, d);
            lemma_move_keeps_shapes(m, p.0 as int, p.1 as int, cur, d);
            if left_behind(mv) is Some {
                lemma_cell_write_keeps_shapes(after, k, left_behind(mv)->0);
                assert(same_shapes(after, e));
            }
        }
    }
}

/// Whether two worlds hold the same chunks and bodies of the same sizes and
/// poses, acted on by the same body.
pub open spec fn same_shapes(a: RigidWorld, b: RigidWorld) -> bool {
    &&& a.chunks == b.chunks
    &&& a.acting == b.acting
    &&& a.bodies.len() == b.bodies.len()
    &&& forall|i: int|
        0 <= i < a.bodies.len() ==> {
            &&& (#[trigger] b.bodies[i]).width == a.bodies[i].width
            &&& b.bodies[i].height == a.bodies[i].height
            &&& b.bodies[i].pose == a.bodies[i].pose
            &&& b.bodies[i].image_dirty == a.bodies[i].image_dirty
            &&& b.bodies[i].pixels.len() == a.bodies[i].pixels.len()
            &&& i != a.acting ==> b.bodies[i] == a.bodies[i]
        }
}

/// Writing one pixel of the acting body keeps all shapes.
pub proof fn lemma_cell_write_keeps_shapes(m: RigidWorld, idx: int, mat: MaterialInstance)
    requires
        m.wf(),
        0 <= idx < m.bodies[m.acting].pixels.len(),
    ensures
        same_shapes(m, m.with_cell(idx, mat)),
        m.with_cell(idx, mat).wf(),
{
    let e = m.with_cell(idx, mat);
    assert forall|i: int| 0 <= i < e.bodies.len() implies (#[trigger] e.bodies[i]).wf() by {
        assert(m.bodies[i].wf());
    }
}

/// A write by world coordinates keeps all shapes.
pub proof fn lemma_write_keeps_shapes(m: RigidWorld, x: int, y: int, mat: MaterialInstance)
    requires
        m.wf(),
    ensures
        same_shapes(m, m.with_write(x, y, mat)),
        m.with_write(x, y, mat).wf(),
{
    let b = m.bodies[m.acting];
    assert(b.wf());
    if b.pose is Some {
        let c = b.pose->0.to_body(x as i32, y as i32);
        if b.has_cell(c) {
            assert(0 <= c.0 + c.1 * b.width < b.width * b.height) by (nonlinear_arith)
                requires
                    0 <= c.0 < b.width,
                    0 <= c.1 < b.height,
            ;
            lemma_cell_write_keeps_shapes(m, b.index_of(c), mat);
        }
    }
}

/// The move of a pixel keeps all shapes.
pub proof fn lemma_move_keeps_shapes(
    m: RigidWorld,
    x: int,
    y: int,
    cur: MaterialInstance,
    d: Draws,
)
    requires
        m.wf(),
    ensures
        same_shapes(
            m,
            moved::<SimulationHelperRigidBody>(
                m,
                x,
                y,
                cur,
                move_of::<SimulationHelperRigidBody>(m, x, y, cur, d),
                d,
            ),
        ),
        moved::<SimulationHelperRigidBody>(
            m,
            x,
            y,
            cur,
            move_of::<SimulationHelperRigidBody>(m, x, y, cur, d),
            d,
        ).wf(),
{
    let mv = move_of::<SimulationHelperRigidBody>(m, x, y, cur, d);
    match mv {
        Move::Shift { dx, dy } => {
            lemma_write_keeps_shapes(m, x + dx, y + dy, cur);
        },
        _ => {},
    }
}

} // verus!
