//! The world: blocks, biomes, chunks, seeds, and where the player starts.

pub mod bioms;
pub mod blocks;
pub mod chunks;
pub mod seeding;

use crate::config::{HeightMap, SpawnPoint};
use vstd::prelude::*;

verus! {

/// The surface height used for the spawn column when it was not generated.
pub const DEFAULT_SPAWN_SURFACE: i32 = 5;

/// The height of the spawn column `(8, 8)`, the centre of chunk `(0, 0)`:
/// its surface if it was generated, else 5.
pub open spec fn spawn_surface(heights: Map<(i32, i32), i32>) -> int {
    if heights.contains_key((8, 8)) {
        heights[(8, 8)] as int
    } else {
        5
    }
}

/// The spawn point: the centre column of chunk `(0, 0)`, five blocks above
/// its surface.
pub fn spawn_point_for(height_map: &HeightMap) -> (spawn: SpawnPoint)
    requires
        spawn_surface(height_map@) + 5 <= i32::MAX,
    ensures
        spawn.x == 8,
        spawn.z == 8,
        spawn.y == spawn_surface(height_map@) + 5,
{
    let center_x: i32 = 16 / 2;
    let center_z: i32 = 16 / 2;
    let height = match height_map.get(center_x, center_z) {
        Some(h) => h,
        None => DEFAULT_SPAWN_SURFACE,
    };
    SpawnPoint { x: center_x, y: height + 5, z: center_z }
}

} // verus!
