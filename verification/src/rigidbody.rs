//! Free rigid bodies that carry a grid of pixels, and the helper through
//! which the pixel rule sees the world from one of them.
//!
//! A read at a world coordinate is answered by the world's own pixel if that
//! is not air, else by the first other body with a pixel there that is not
//! air, else by air. A write lands in the acting body's own grid, in the cell
//! that the world coordinate falls into, or nowhere.

use vstd::prelude::*;
use rapier2d::math::Real;
use rapier2d::na::{Complex, Isometry2, Point2, Translation2, Unit};
use crate::helper::SimulationHelper;
use crate::material::{AIR, Color, Light, MaterialInstance, PhysicsType, air_pixel};
use crate::particle::{Particle, Position};
use crate::rule::Velocity;
use crate::world::{ChunkHandler, WorldChunk, world_color, world_pixel};

verus! {

/// Where a body stands, in pixels: the cosine and sine of its rotation and
/// its translation, each as the bit pattern of a single-precision number.
#[derive(Clone, Copy, Debug, PartialEq, Eq, Structural)]
pub struct Pose {
    pub re: u32,
    pub im: u32,
    pub x: u32,
    pub y: u32,
}

/// The world cell that the isometry with rotation `(re, im)` and translation
/// `(tx, ty)` carries the body cell `(lx, ly)` to.
pub uninterp spec fn isometry_image(re: u32, im: u32, tx: u32, ty: u32, lx: u16, ly: u16) -> (
    i32,
    i32,
);

/// The body cell that the isometry with rotation `(re, im)` and translation
/// `(tx, ty)` carries to the world cell `(x, y)`.
pub uninterp spec fn isometry_preimage(re: u32, im: u32, tx: u32, ty: u32, x: i32, y: i32) -> (
    i32,
    i32,
);

impl Pose {
    /// The world cell of the body cell `(lx, ly)`.
    pub open spec fn to_world(self, lx: u16, ly: u16) -> (i32, i32) {
        isometry_image(self.re, self.im, self.x, self.y, lx, ly)
    }

    /// The body cell of the world cell `(x, y)`.
    pub open spec fn to_body(self, x: i32, y: i32) -> (i32, i32) {
        isometry_preimage(self.re, self.im, self.x, self.y, x, y)
    }

    /// `nalgebra::Isometry::transform_point` on the isometry made of this
    /// pose by `from_parts`: the point is rotated, then translated, and each
    /// coordinate cut to a whole number. The result is named, not described.
    #[verifier::external_body]
    pub(crate) fn cell_to_world(&self, lx: u16, ly: u16) -> (p: (i32, i32))
        ensures
            p == isometry_image(self.re, self.im, self.x, self.y, lx, ly),
    {
        let iso = Isometry2::from_parts(
            Translation2::new(Real::from_bits(self.x), Real::from_bits(self.y)),
            Unit::new_unchecked(Complex::new(Real::from_bits(self.re), Real::from_bits(self.im))),
        );
        let q = iso.transform_point(&Point2::new(lx.into(), ly.into()));
        (q.x as i32, q.y as i32)
    }

    /// `nalgebra::Isometry::inverse_transform_point` on the isometry made of
    /// this pose by `from_parts`: the translation is taken off the point,
    /// the rotation undone, and each coordinate cut to a whole number. The
    /// result is named, not described.
    #[verifier::external_body]
    pub(crate) fn world_to_cell(&self, x: i32, y: i32) -> (p: (i32, i32))
        ensures
            p == isometry_preimage(self.re, self.im, self.x, self.y, x, y),
    {
        let iso = Isometry2::from_parts(
            Translation2::new(Real::from_bits(self.x), Real::from_bits(self.y)),
            Unit::new_unchecked(Complex::new(Real::from_bits(self.re), Real::from_bits(self.im))),
        );
        let q = iso.inverse_transform_point(&Point2::new(x as Real, y as Real));
        (q.x as i32, q.y as i32)
    }
}

/// A rigid body's pixel grid, with the pose of the body if the physics
/// engine knows the body.
#[derive(Debug)]
pub struct FSRigidBody {
    pub width: u16,
    pub height: u16,
    /// `width * height` pixels, row by row.
    pub pixels: Vec<MaterialInstance>,
    pub pose: Option<Pose>,
    /// Whether the body's image must be drawn anew.
    pub image_dirty: bool,
}

/// A rigid body as mathematics.
pub struct BodyView {
    pub width: u16,
    pub height: u16,
    pub pixels: Seq<MaterialInstance>,
    pub pose: Option<Pose>,
    pub image_dirty: bool,
}

impl View for FSRigidBody {
    type V = BodyView;

    open spec fn view(&self) -> BodyView {
        BodyView {
            width: self.width,
            height: self.height,
            pixels: self.pixels@,
            pose: self.pose,
            image_dirty: self.image_dirty,
        }
    }
}

impl BodyView {
    /// The grid holds one pixel for every cell.
    pub open spec fn wf(self) -> bool {
        self.pixels.len() == self.width * self.height
    }

    /// Whether a cell lies in the grid.
    pub open spec fn has_cell(self, c: (i32, i32)) -> bool {
        0 <= c.0 < self.width && 0 <= c.1 < self.height
    }

    /// Where a cell lies in the pixel buffer.
    pub open spec fn index_of(self, c: (i32, i32)) -> int {
        c.0 + c.1 * self.width
    }

    /// The pixel in a cell, if the cell lies in the grid and does not hold
    /// air.
    pub open spec fn pixel_in(self, c: (i32, i32)) -> Option<MaterialInstance> {
        if self.has_cell(c) && self.pixels[self.index_of(c)].material_id != AIR {
            Some(self.pixels[self.index_of(c)])
        } else {
            None
        }
    }

    /// The pixel that the body shows at the world cell `(x, y)`, if any.
    pub open spec fn covering(self, x: int, y: int) -> Option<MaterialInstance> {
        match self.pose {
            Some(p) => self.pixel_in(p.to_body(x as i32, y as i32)),
            None => None,
        }
    }

    /// The same body with one pixel replaced.
    pub open spec fn with_pixel(self, idx: int, mat: MaterialInstance) -> BodyView {
        BodyView { pixels: self.pixels.update(idx, mat), ..self }
    }
}

/// The views of a list of bodies.
pub open spec fn body_views(a: Seq<FSRigidBody>) -> Seq<BodyView> {
    Seq::new(a.len(), |i: int| a[i]@)
}

/// The first pixel that a body other than `skip`, among those from `from`
/// on, shows at the world cell `(x, y)`.
pub open spec fn first_cover(bodies: Seq<BodyView>, skip: int, x: int, y: int, from: int) -> Option<
    MaterialInstance,
>
    decreases bodies.len() - from,
{
    if from < 0 || from >= bodies.len() {
        None
    } else if from != skip && bodies[from].covering(x, y) is Some {
        bodies[from].covering(x, y)
    } else {
        first_cover(bodies, skip, x, y, from + 1)
    }
}

/// The world, the bodies, the one of them that is being stepped and what
/// its step has done so far: what a rigid-body helper stands for.
pub struct RigidWorld {
    pub chunks: Seq<WorldChunk>,
    pub bodies: Seq<BodyView>,
    pub acting: int,
    pub particles: Seq<Particle>,
    /// Whether a pixel of the acting body was written.
    pub dirty: bool,
    /// Whether a pixel of the acting body became solid or stopped being so.
    pub needs_remesh: bool,
}

impl RigidWorld {
    /// One of the bodies is acting, every body's grid fits its size and
    /// every chunk's buffers have their lengths.
    pub open spec fn wf(self) -> bool {
        &&& 0 <= self.acting < self.bodies.len()
        &&& forall|i: int| 0 <= i < self.bodies.len() ==> (#[trigger] self.bodies[i]).wf()
        &&& forall|i: int| 0 <= i < self.chunks.len() ==> (#[trigger] self.chunks[i]).wf()
    }

    /// What a read at the world cell `(x, y)` gives.
    pub open spec fn resolved_pixel(self, x: int, y: int) -> MaterialInstance {
        match world_pixel(self.chunks, x, y) {
            Some(m) if m.material_id != AIR => m,
            _ => match first_cover(self.bodies, self.acting, x, y, 0) {
                Some(px) => px,
                None => air_pixel(),
            },
        }
    }

    /// What a read of the colour at the world cell `(x, y)` gives.
    pub open spec fn resolved_color(self, x: int, y: int) -> Color {
        match world_color(self.chunks, x, y) {
            Some(col) if col.a > 0 => col,
            _ => match first_cover(self.bodies, self.acting, x, y, 0) {
                Some(px) => px.color,
                None => Color { r: 0, g: 0, b: 0, a: 0 },
            },
        }
    }

    /// The acting body's pixel at `idx` is replaced: the body is dirty, and
    /// needs a new shape if the pixel became solid or stopped being so.
    pub open spec fn with_cell(self, idx: int, mat: MaterialInstance) -> RigidWorld {
        let b = self.bodies[self.acting];
        RigidWorld {
            bodies: self.bodies.update(self.acting, b.with_pixel(idx, mat)),
            dirty: true,
            needs_remesh: self.needs_remesh || b.pixels[idx].is_solid() != mat.is_solid(),
            ..self
        }
    }

    /// A write at the world cell `(x, y)`: it lands in the acting body's
    /// cell there, if the body has one.
    pub open spec fn with_write(self, x: int, y: int, mat: MaterialInstance) -> RigidWorld {
        let b = self.bodies[self.acting];
        match b.pose {
            Some(p) => {
                let c = p.to_body(x as i32, y as i32);
                if b.has_cell(c) {
                    self.with_cell(b.index_of(c), mat)
                } else {
                    self
                }
            },
            None => self,
        }
    }
}

impl FSRigidBody {
    /// The pixel in a cell, if the cell lies in the grid and does not hold
    /// air.
    pub fn pixel_in(&self, cell: (i32, i32)) -> (found: Option<&MaterialInstance>)
        requires
            self@.wf(),
        ensures
            match found {
                Some(px) => self@.pixel_in(cell) == Some(*px),
                None => self@.pixel_in(cell) is None,
            },
    {
        let nt_x = cell.0;
        let nt_y = cell.1;
        if nt_x >= 0 && nt_y >= 0 && nt_x < self.width as i32 && nt_y < self.height as i32 {
            assert(0 <= nt_y * self.width && nt_x + nt_y * self.width < self.width * self.height
                <= 0xFFFF * 0xFFFF) by (nonlinear_arith)
                requires
                    0 <= nt_x < self.width <= 0xFFFF,
                    0 <= nt_y < self.height <= 0xFFFF,
            ;
            let px = &self.pixels[nt_x as usize + nt_y as usize * self.width as usize];
            if px.material_id != AIR {
                return Some(px);
            }
        }
        None
    }

    /// The pixel that the body shows at the world cell `(x, y)`, if any.
    pub fn covering(&self, x: i32, y: i32) -> (found: Option<&MaterialInstance>)
        requires
            self@.wf(),
        ensures
            match found {
                Some(px) => self@.covering(x as int, y as int) == Some(*px),
                None => self@.covering(x as int, y as int) is None,
            },
    {
        match &self.pose {
            Some(pose) => self.pixel_in(pose.world_to_cell(x, y)),
            None => None,
        }
    }
}

/// Access to the world as one rigid body sees it.
pub struct SimulationHelperRigidBody<'a> {
    pub air: MaterialInstance,
    pub chunk_handler: &'a ChunkHandler,
    pub rigidbodies: Vec<FSRigidBody>,
    pub particles: Vec<Particle>,
    /// Index of the body that is being stepped.
    pub acting: usize,
    pub dirty: bool,
    pub needs_remesh: bool,
}

impl<'a> View for SimulationHelperRigidBody<'a> {
    type V = RigidWorld;

    open spec fn view(&self) -> RigidWorld {
        RigidWorld {
            chunks: self.chunk_handler.loaded_chunks@,
            bodies: body_views(self.rigidbodies@),
            acting: self.acting as int,
            particles: self.particles@,
            dirty: self.dirty,
            needs_remesh: self.needs_remesh,
        }
    }
}

impl<'a> SimulationHelperRigidBody<'a> {
    /// The first pixel that another body shows at the world cell `(x, y)`.
    pub fn first_cover(&self, x: i32, y: i32) -> (found: Option<&MaterialInstance>)
        requires
            self@.wf(),
        ensures
            match found {
                Some(px) => first_cover(self@.bodies, self@.acting, x as int, y as int, 0) == Some(
                    *px,
                ),
                None => first_cover(self@.bodies, self@.acting, x as int, y as int, 0) is None,
            },
    {
        let mut i: usize = 0;
        while i < self.rigidbodies.len()
            invariant
                0 <= i <= self.rigidbodies@.len(),
                self@.wf(),
                first_cover(self@.bodies, self@.acting, x as int, y as int, 0) == first_cover(
                    self@.bodies,
                    self@.acting,
                    x as int,
                    y as int,
                    i as int,
                ),
            decreases self.rigidbodies@.len() - i,
        {
            assert(self@.bodies[i as int].wf());
            if i != self.acting {
                let found = self.rigidbodies[i].covering(x, y);
                if found.is_some() {
                    return found;
                }
            }
            i += 1;
        }
        None
    }

    /// Replaces the pixel at `idx` of the acting body and records what that
    /// means for the body.
    pub fn set_cell(&mut self, idx: usize, mat: MaterialInstance)
        requires
            old(self)@.wf(),
            idx < old(self)@.bodies[old(self)@.acting].pixels.len(),
        ensures
            final(self)@.wf(),
            final(self)@ == old(self)@.with_cell(idx as int, mat),
            final(self).air == old(self).air,
    {
        let i = self.acting;
        assert(self@.bodies[i as int].wf());
        let was_solid = self.rigidbodies[i].pixels[idx].physics == PhysicsType::Solid;
        let is_solid = mat.physics == PhysicsType::Solid;
        self.rigidbodies[i].pixels[idx] = mat;
        self.dirty = true;
        if was_solid != is_solid {
            self.needs_remesh = true;
        }
        proof {
            let want = old(self)@.with_cell(idx as int, mat);
            assert(self@.bodies =~= want.bodies);
            assert forall|k: int| 0 <= k < self@.bodies.len() implies (#[trigger] self@.bodies[k]).wf() by {
                assert(old(self)@.bodies[k].wf());
            }
        }
    }
}

impl<'a> SimulationHelper for SimulationHelperRigidBody<'a> {
    type Model = RigidWorld;

    open spec fn model(&self) -> RigidWorld {
        self@
    }

    open spec fn inv(&self) -> bool {
        self@.wf() && self.air == air_pixel()
    }

    open spec fn in_reach(x: int, y: int) -> bool {
        i32::MIN <= x <= i32::MAX && i32::MIN <= y <= i32::MAX
    }

    open spec fn pixel(m: RigidWorld, x: int, y: int) -> MaterialInstance {
        m.resolved_pixel(x, y)
    }

    open spec fn color(m: RigidWorld, x: int, y: int) -> Color {
        m.resolved_color(x, y)
    }

    open spec fn light(m: RigidWorld, x: int, y: int) -> Light {
        Light { r: 0, g: 0, b: 0 }
    }

    open spec fn put_pixel(m: RigidWorld, x: int, y: int, mat: MaterialInstance) -> RigidWorld {
        m.with_write(x, y, mat)
    }

    open spec fn put_color(m: RigidWorld, x: int, y: int, col: Color) -> RigidWorld {
        m
    }

    open spec fn put_light(m: RigidWorld, x: int, y: int, light: Light) -> RigidWorld {
        m
    }

    open spec fn with_particle(
        m: RigidWorld,
        material: MaterialInstance,
        pos: Position,
        vel: Velocity,
    ) -> RigidWorld {
        RigidWorld { particles: m.particles.push(Particle { material, pos, vel }), ..m }
    }

    fn get_pixel_local(&self, x: i32, y: i32) -> (mat: MaterialInstance) {
        *self.borrow_pixel_local(x, y)
    }

    fn borrow_pixel_local(&self, x: i32, y: i32) -> (mat: &MaterialInstance) {
        let world_mat = self.chunk_handler.get(x as i64, y as i64);
        if let Some(m) = world_mat {
            if m.material_id != AIR {
                return m;
            }
        }
        match self.first_cover(x, y) {
            Some(px) => px,
            None => &self.air,
        }
    }

    fn set_pixel_local(&mut self, x: i32, y: i32, mat: MaterialInstance) {
        let i = self.acting;
        assert(self@.bodies[i as int].wf());
        let width = self.rigidbodies[i].width;
        let height = self.rigidbodies[i].height;
        if let Some(pose) = self.rigidbodies[i].pose {
            let cell = pose.world_to_cell(x, y);
            if cell.0 >= 0 && cell.1 >= 0 && cell.0 < width as i32 && cell.1 < height as i32 {
                assert(0 <= cell.1 * width && cell.0 + cell.1 * width < width * height <= 0xFFFF
                    * 0xFFFF) by (nonlinear_arith)
                    requires
                        0 <= cell.0 < width <= 0xFFFF,
                        0 <= cell.1 < height <= 0xFFFF,
                ;
                self.set_cell(cell.0 as usize + cell.1 as usize * width as usize, mat);
            }
        }
    }

    fn get_color_local(&self, x: i32, y: i32) -> (col: Color) {
        if let Some(col) = self.chunk_handler.get_color(x as i64, y as i64) {
            if col.a > 0 {
                return col;
            }
        }
        match self.first_cover(x, y) {
            Some(px) => px.color,
            None => Color::rgba(0, 0, 0, 0),
        }
    }

    fn set_color_local(&mut self, x: i32, y: i32, col: Color) {
    }

    fn get_light_local(&self, x: i32, y: i32) -> (light: Light) {
        Light { r: 0, g: 0, b: 0 }
    }

    fn set_light_local(&mut self, x: i32, y: i32, light: Light) {
    }

    fn add_particle(&mut self, material: MaterialInstance, pos: Position, vel: Velocity) {
        self.particles.push(Particle::new(material, pos, vel));
        proof {
            assert(self@.bodies =~= old(self)@.bodies);
            assert forall|k: int| 0 <= k < self@.chunks.len() implies (#[trigger] self@.chunks[k]).wf() by {
                assert(old(self)@.chunks[k].wf());
            }
        }
    }
}

} // verus!
