//! What the scene holds besides pixels: markers attached to entities, and
//! the world's chunks as a resource.

use vstd::prelude::*;
use crate::world::ChunkHandler;

verus! {

/// The loaded chunks, lent to the systems of the scene.
#[derive(Debug)]
pub struct ChunkHandlerResource<'a>(pub &'a mut ChunkHandler);

/// Marks an entity that is saved with the world.
#[derive(Debug, Clone, Copy, PartialEq, Eq, Structural)]
pub struct FilePersistent;

/// Marks an entity that takes part in the game.
#[derive(Debug, Clone, Copy, PartialEq, Eq, Structural)]
pub struct GameEntity;

} // verus!
