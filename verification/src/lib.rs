//! Voxel world logic: chunk storage, terrain layering, face culling,
//! registries of blocks and biomes, seed mixing and game-state decisions.

pub mod collections;
pub mod config;
pub mod states;
pub mod world;

use vstd::prelude::*;

verus! {

/// Width and depth of a chunk, in blocks.
pub const CHUNK_SIZE: i32 = 16;

/// Height of the world, in blocks.
pub const MAX_HEIGHT: i32 = 256;

/// Number of blocks in a chunk: `CHUNK_SIZE * MAX_HEIGHT * CHUNK_SIZE`.
pub const CHUNK_VOLUME: usize = 65536;

/// Number of faces a chunk may show: six per block.
pub const CHUNK_FACE_SLOTS: usize = 393216;

} // verus!
