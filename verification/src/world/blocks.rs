//! Blocks: the six face directions and the air test used for face culling.

use crate::config::BlockRegistry;
use crate::world::chunks::{in_chunk, ChunkData};
use crate::{CHUNK_SIZE, MAX_HEIGHT};
use vstd::prelude::*;

verus! {

/// A block, by the id of its kind in the block registry.
#[derive(Clone, Copy, Debug, PartialEq, Eq, Structural)]
pub struct Block {
    pub id: u16,
}

/// The unit step `(dx, dy, dz)` towards the neighbour behind face `face`:
/// top, bottom, +x, -x, +z, -z.
pub open spec fn face_dir(face: int) -> (int, int, int) {
    if face == 0 {
        (0, 1, 0)
    } else if face == 1 {
        (0, -1, 0)
    } else if face == 2 {
        (1, 0, 0)
    } else if face == 3 {
        (-1, 0, 0)
    } else if face == 4 {
        (0, 0, 1)
    } else {
        (0, 0, -1)
    }
}

/// The unit step towards the neighbour behind face `face` (0 to 5).
pub fn face_offset(face: usize) -> (step: (i32, i32, i32))
    requires
        face < 6,
    ensures
        step.0 as int == face_dir(face as int).0,
        step.1 as int == face_dir(face as int).1,
        step.2 as int == face_dir(face as int).2,
{
    if face == 0 {
        (0, 1, 0)
    } else if face == 1 {
        (0, -1, 0)
    } else if face == 2 {
        (1, 0, 0)
    } else if face == 3 {
        (-1, 0, 0)
    } else if face == 4 {
        (0, 0, 1)
    } else {
        (0, 0, -1)
    }
}

/// Whether the position `(x, y, z)` of a chunk holds air: positions outside
/// the chunk count as air.
pub open spec fn spec_is_air(data: ChunkData, air: u16, x: int, y: int, z: int) -> bool {
    !in_chunk(x, y, z) || data.block(x, y, z) == air
}

/// Whether position `(x, y, z)` of the chunk holds air (the registry's air id);
/// positions outside the chunk count as air.
pub fn is_air<D>(registry: &BlockRegistry<D>, data: &ChunkData, x: i32, y: i32, z: i32) -> (r: bool)
    requires
        data.wf(),
    ensures
        r == spec_is_air(*data, registry.air, x as int, y as int, z as int),
{
    let s = CHUNK_SIZE;
    let h = MAX_HEIGHT;
    if x < 0 || x >= s || y < 0 || y >= h || z < 0 || z >= s {
        return true;
    }
    let slot = (x as usize) * 4096 + (y as usize) * 16 + (z as usize);
    data.blocks[slot] == registry.air
}

} // verus!
