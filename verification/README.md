# voxel_world

The logic of a small voxel game, written in Verus and proved against its
contracts. The game itself (rendering, input, physics, asset files) is a Bevy
program under `app/` that calls the library.

- `src/config.rs`: block and biome registries (name → id, with a fallback id),
  the seed, the height map, the set of generated chunks and the loading flags.
- `src/world/chunks.rs`: chunk storage, terrain layering, the faces a chunk
  shows, the triangle lists for its mesh and collider, and which neighbouring
  chunks to generate as the player moves.
- `src/world/blocks.rs`: face directions and the air test.
- `src/world/seeding.rs`: seed mixing.
- `src/world/bioms.rs`, `src/world/mod.rs`: biome blocks and the spawn point.
- `src/states.rs`: game states and the loading decisions.
- `src/collections.rs`: Bevy's hash map and hash set, seen through their contents.

Noise sampling, colours, vertex positions and everything else in floating
point is computed in `app/` and handed to the library as integers and flags.
