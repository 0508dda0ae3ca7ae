//! Pixels: what a single cell of a grid holds.

use vstd::prelude::*;

verus! {

/// Identifier of a material kind.
pub type MaterialID = u16;

/// The material of an empty cell.
pub const AIR: MaterialID = 0;

/// A featureless solid used for scaffolding.
pub const TEST: MaterialID = 1;

/// Bit pattern of the single-precision value one.
pub const LIGHT_FULL: u32 = 0x3F80_0000;

/// Coarse behavioural class of a pixel; it selects the transition rule.
#[derive(Clone, Copy, Debug, PartialEq, Eq, Structural)]
pub enum PhysicsType {
    Air,
    Solid,
    Sand,
}

/// An RGBA colour, one byte per channel.
#[derive(Clone, Copy, Debug, PartialEq, Eq, Structural)]
pub struct Color {
    pub r: u8,
    pub g: u8,
    pub b: u8,
    pub a: u8,
}

impl Color {
    pub fn rgba(r: u8, g: u8, b: u8, a: u8) -> (c: Color)
        ensures
            c == (Color { r, g, b, a }),
    {
        Color { r, g, b, a }
    }

    /// An opaque colour.
    pub fn rgb(r: u8, g: u8, b: u8) -> (c: Color)
        ensures
            c == (Color { r, g, b, a: 255 }),
    {
        Color { r, g, b, a: 255 }
    }
}

/// A linear-light triple. Each channel is the bit pattern of a
/// single-precision number; the simulator only ever copies it.
#[derive(Clone, Copy, Debug, PartialEq, Eq, Structural)]
pub struct Light {
    pub r: u32,
    pub g: u32,
    pub b: u32,
}

/// One entry of a chunk's light buffer: a light triple and a fourth channel.
#[derive(Clone, Copy, Debug, PartialEq, Eq, Structural)]
pub struct LightTexel {
    pub r: u32,
    pub g: u32,
    pub b: u32,
    pub a: u32,
}

/// The full state of one pixel. Pixels are replaced wholesale, never edited.
#[derive(Clone, Copy, Debug, PartialEq, Eq, Structural)]
pub struct MaterialInstance {
    pub material_id: MaterialID,
    pub physics: PhysicsType,
    pub color: Color,
    pub light: Light,
}

/// The pixel of an empty cell.
pub open spec fn air_pixel() -> MaterialInstance {
    MaterialInstance {
        material_id: AIR,
        physics: PhysicsType::Air,
        color: Color { r: 0, g: 0, b: 0, a: 0 },
        light: Light { r: 0, g: 0, b: 0 },
    }
}

impl MaterialInstance {
    /// Whether material may move into a cell holding this pixel.
    pub open spec fn is_open(self) -> bool {
        self.physics == PhysicsType::Air
    }

    /// Whether this pixel counts towards a body's collision shape.
    pub open spec fn is_solid(self) -> bool {
        self.physics == PhysicsType::Solid
    }

    /// The pixel of an empty cell.
    pub fn air() -> (m: MaterialInstance)
        ensures
            m == air_pixel(),
    {
        MaterialInstance {
            material_id: AIR,
            physics: PhysicsType::Air,
            color: Color { r: 0, g: 0, b: 0, a: 0 },
            light: Light { r: 0, g: 0, b: 0 },
        }
    }
}

} // verus!
