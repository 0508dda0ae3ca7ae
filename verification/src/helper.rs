//! The interface through which the pixel rule reads and writes a grid.
//!
//! A helper has a mathematical model; every operation says what it returns
//! of the model or how it changes it, by a spec function of the helper's own.

use vstd::prelude::*;
use crate::material::{Color, Light, MaterialInstance, PhysicsType, air_pixel};
use crate::particle::Position;
use crate::rule::{
    CHANCE_SCALE, Draws, FRACTION_SCALE, Move, Surroundings, Velocity, launch_velocity, sand_rule,
};

verus! {

/// What the pixel rule needs of a grid: reading and writing material,
/// colour and light at a coordinate, and spawning a particle.
pub trait SimulationHelper: Sized {
    /// What the helper stands for.
    type Model;

    spec fn model(&self) -> Self::Model;

    /// The helper's own consistency.
    spec fn inv(&self) -> bool;

    /// The coordinates the helper may be asked about.
    spec fn in_reach(x: int, y: int) -> bool;

    spec fn pixel(m: Self::Model, x: int, y: int) -> MaterialInstance;

    spec fn color(m: Self::Model, x: int, y: int) -> Color;

    spec fn light(m: Self::Model, x: int, y: int) -> Light;

    spec fn put_pixel(m: Self::Model, x: int, y: int, mat: MaterialInstance) -> Self::Model;

    spec fn put_color(m: Self::Model, x: int, y: int, col: Color) -> Self::Model;

    spec fn put_light(m: Self::Model, x: int, y: int, light: Light) -> Self::Model;

    spec fn with_particle(
        m: Self::Model,
        material: MaterialInstance,
        pos: Position,
        vel: Velocity,
    ) -> Self::Model;

    fn get_pixel_local(&self, x: i32, y: i32) -> (mat: MaterialInstance)
        requires
            self.inv(),
            Self::in_reach(x as int, y as int),
        ensures
            mat == Self::pixel(self.model(), x as int, y as int),
    ;

    fn borrow_pixel_local(&self, x: i32, y: i32) -> (mat: &MaterialInstance)
        requires
            self.inv(),
            Self::in_reach(x as int, y as int),
        ensures
            *mat == Self::pixel(self.model(), x as int, y as int),
    ;

    fn set_pixel_local(&mut self, x: i32, y: i32, mat: MaterialInstance)
        requires
            old(self).inv(),
            Self::in_reach(x as int, y as int),
        ensures
            final(self).inv(),
            final(self).model() == Self::put_pixel(old(self).model(), x as int, y as int, mat),
    ;

    fn get_color_local(&self, x: i32, y: i32) -> (col: Color)
        requires
            self.inv(),
            Self::in_reach(x as int, y as int),
        ensures
            col == Self::color(self.model(), x as int, y as int),
    ;

    fn set_color_local(&mut self, x: i32, y: i32, col: Color)
        requires
            old(self).inv(),
            Self::in_reach(x as int, y as int),
        ensures
            final(self).inv(),
            final(self).model() == Self::put_color(old(self).model(), x as int, y as int, col),
    ;

    fn get_light_local(&self, x: i32, y: i32) -> (light: Light)
        requires
            self.inv(),
            Self::in_reach(x as int, y as int),
        ensures
            light == Self::light(self.model(), x as int, y as int),
    ;

    fn set_light_local(&mut self, x: i32, y: i32, light: Light)
        requires
            old(self).inv(),
            Self::in_reach(x as int, y as int),
        ensures
            final(self).inv(),
            final(self).model() == Self::put_light(old(self).model(), x as int, y as int, light),
    ;

    fn add_particle(&mut self, material: MaterialInstance, pos: Position, vel: Velocity)
        requires
            old(self).inv(),
            i32::MIN <= pos.x <= i32::MAX,
            i32::MIN <= pos.y <= i32::MAX,
        ensures
            final(self).inv(),
            final(self).model() == Self::with_particle(old(self).model(), material, pos, vel),
    ;
}

/// Whether the cell at `(x, y)` is open.
pub open spec fn open_at<H: SimulationHelper>(m: H::Model, x: int, y: int) -> bool {
    H::pixel(m, x, y).physics == PhysicsType::Air
}

/// What surrounds the cell `(x, y)`.
pub open spec fn surroundings<H: SimulationHelper>(m: H::Model, x: int, y: int) -> Surroundings {
    Surroundings {
        above: open_at::<H>(m, x, y - 1),
        below: open_at::<H>(m, x, y + 1),
        below_left: open_at::<H>(m, x - 1, y + 1),
        below_right: open_at::<H>(m, x + 1, y + 1),
        below2: open_at::<H>(m, x, y + 2),
        shaft: open_at::<H>(m, x, y + 2) && open_at::<H>(m, x, y + 3) && open_at::<H>(m, x, y + 4)
            && open_at::<H>(m, x, y + 5),
        left2: open_at::<H>(m, x - 2, y + 1),
        left2_below: open_at::<H>(m, x - 2, y + 2),
        right2: open_at::<H>(m, x + 2, y + 1),
        right2_below: open_at::<H>(m, x + 2, y + 2),
    }
}

/// The model after colour, light and pixel of `mat` were written to `(x, y)`,
/// in that order.
pub open spec fn placed<H: SimulationHelper>(
    m: H::Model,
    x: int,
    y: int,
    mat: MaterialInstance,
) -> H::Model {
    H::put_pixel(H::put_light(H::put_color(m, x, y, mat.color), x, y, mat.light), x, y, mat)
}

/// The model after the pixel `cur` at `(x, y)` made the move `mv`. The source
/// cell itself is not yet touched.
pub open spec fn moved<H: SimulationHelper>(
    m: H::Model,
    x: int,
    y: int,
    cur: MaterialInstance,
    mv: Move,
    d: Draws,
) -> H::Model {
    match mv {
        Move::Stay => m,
        Move::Detach => H::with_particle(
            m,
            cur,
            Position { x: x as i64, y: y as i64 },
            launch_velocity(d),
        ),
        Move::Shift { dx, dy } => placed::<H>(m, x + dx, y + dy, cur),
    }
}

/// The move that the pixel `cur` at `(x, y)` makes under the draws `d`.
pub open spec fn move_of<H: SimulationHelper>(
    m: H::Model,
    x: int,
    y: int,
    cur: MaterialInstance,
    d: Draws,
) -> Move {
    if cur.physics == PhysicsType::Sand {
        sand_rule(surroundings::<H>(m, x, y), d)
    } else {
        Move::Stay
    }
}

/// What is to replace the source cell after the move `mv`, if anything.
pub open spec fn left_behind(mv: Move) -> Option<MaterialInstance> {
    if mv == Move::Stay {
        None
    } else {
        Some(air_pixel())
    }
}

/// Whether every draw lies in its range.
pub open spec fn draws_in_range(d: Draws) -> bool {
    &&& d.fall < CHANCE_SCALE
    &&& d.spread < CHANCE_SCALE
    &&& d.drift < FRACTION_SCALE
    &&& d.plunge < FRACTION_SCALE
}

/// Whether the rule may probe around `(x, y)` without leaving the helper's
/// reach or the range of the coordinates.
pub open spec fn can_probe<H: SimulationHelper>(x: int, y: int) -> bool {
    &&& i32::MIN + 2 <= x <= i32::MAX - 2
    &&& i32::MIN + 1 <= y <= i32::MAX - 5
    &&& forall|px: int, py: int|
        x - 2 <= px <= x + 2 && y - 1 <= py <= y + 5 ==> #[trigger] H::in_reach(px, py)
}

} // verus!
