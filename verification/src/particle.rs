//! Particles: single pixels of material that have left the grid and move
//! freely until they settle again.

use vstd::prelude::*;
use crate::material::MaterialInstance;
use crate::rule::Velocity;

verus! {

/// A position in whole pixels.
#[derive(Clone, Copy, Debug, PartialEq, Eq, Structural)]
pub struct Position {
    pub x: i64,
    pub y: i64,
}

/// One freed pixel: its material, where it left the grid and how fast.
#[derive(Clone, Copy, Debug, PartialEq, Eq, Structural)]
pub struct Particle {
    pub material: MaterialInstance,
    pub pos: Position,
    pub vel: Velocity,
}

impl Particle {
    pub fn new(material: MaterialInstance, pos: Position, vel: Velocity) -> (p: Particle)
        ensures
            p == (Particle { material, pos, vel }),
    {
        Particle { material, pos, vel }
    }
}

} // verus!
