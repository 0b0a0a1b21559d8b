use voxel_world::config::{BlockRegistry, HeightMap, LastPlayerChunk, SpawnedChunks};
use voxel_world::world::blocks::{face_offset, is_air};
use voxel_world::world::chunks::{
    chunks_to_generate, clamp_surface_height, collider_triangles, face_indices, generate_block_data,
    neighbor_chunks, terrain_block, visible_faces, ChunkCoord, ChunkData, TerrainSamples, VisibleFace,
};

const AIR: u16 = 0;
const BEDROCK: u16 = 1;
const STONE: u16 = 2;
const DIRT: u16 = 3;
const GRASS: u16 = 4;
const SNOW: u16 = 5;
const SAND: u16 = 6;
const GRAVEL: u16 = 7;

fn registry() -> BlockRegistry<()> {
    let mut r = BlockRegistry::new();
    for name in ["air", "bedrock", "stone", "dirt", "grass", "snow", "sand", "gravel"] {
        r.register(name.to_string(), ());
    }
    r.resolve_air();
    r
}

fn slot(x: usize, y: usize, z: usize) -> usize {
    x * 4096 + y * 16 + z
}

fn face(x: usize, y: usize, z: usize, face: usize, id: u16) -> VisibleFace {
    VisibleFace { x, y, z, face, id }
}

#[test]
fn empty_chunk_is_all_air() {
    let data = ChunkData::empty(9);
    assert_eq!(data.blocks.len(), 65536);
    assert!(data.blocks.iter().all(|b| *b == 9));
    assert_eq!(data.get(15, 255, 15), 9);
}

#[test]
fn is_air_outside_the_chunk() {
    let r = registry();
    let mut data = ChunkData::empty(AIR);
    for x in 0..16 {
        for y in 0..256 {
            for z in 0..16 {
                data.blocks[slot(x, y, z)] = STONE;
            }
        }
    }
    assert!(is_air(&r, &data, -1, 0, 0));
    assert!(is_air(&r, &data, 16, 0, 0));
    assert!(is_air(&r, &data, 0, -1, 0));
    assert!(is_air(&r, &data, 0, 256, 0));
    assert!(is_air(&r, &data, 0, 0, -1));
    assert!(is_air(&r, &data, 0, 0, 16));
    assert!(!is_air(&r, &data, 0, 0, 0));
    assert!(!is_air(&r, &data, 15, 255, 15));
    data.blocks[slot(3, 4, 5)] = AIR;
    assert!(is_air(&r, &data, 3, 4, 5));
}

#[test]
fn face_offsets_in_order() {
    assert_eq!(face_offset(0), (0, 1, 0));
    assert_eq!(face_offset(1), (0, -1, 0));
    assert_eq!(face_offset(2), (1, 0, 0));
    assert_eq!(face_offset(3), (-1, 0, 0));
    assert_eq!(face_offset(4), (0, 0, 1));
    assert_eq!(face_offset(5), (0, 0, -1));
}

#[test]
fn air_chunk_shows_no_face() {
    let r = registry();
    assert!(visible_faces(&ChunkData::empty(AIR), &r).is_empty());
}

#[test]
fn lone_block_shows_six_faces() {
    let r = registry();
    let mut data = ChunkData::empty(AIR);
    data.blocks[slot(3, 4, 5)] = 9;
    let faces = visible_faces(&data, &r);
    let expected: Vec<VisibleFace> = (0..6).map(|f| face(3, 4, 5, f, 9)).collect();
    assert_eq!(faces, expected);
}

#[test]
fn neighbouring_blocks_hide_shared_faces() {
    let r = registry();
    let mut data = ChunkData::empty(AIR);
    data.blocks[slot(3, 4, 5)] = STONE;
    data.blocks[slot(4, 4, 5)] = DIRT;
    let faces = visible_faces(&data, &r);
    assert_eq!(faces.len(), 10);
    assert_eq!(
        faces,
        vec![
            face(3, 4, 5, 0, STONE),
            face(3, 4, 5, 1, STONE),
            face(3, 4, 5, 3, STONE),
            face(3, 4, 5, 4, STONE),
            face(3, 4, 5, 5, STONE),
            face(4, 4, 5, 0, DIRT),
            face(4, 4, 5, 1, DIRT),
            face(4, 4, 5, 2, DIRT),
            face(4, 4, 5, 4, DIRT),
            face(4, 4, 5, 5, DIRT),
        ]
    );
}

#[test]
fn corner_block_faces_the_outside() {
    let r = registry();
    let mut data = ChunkData::empty(AIR);
    data.blocks[slot(0, 0, 0)] = BEDROCK;
    assert_eq!(visible_faces(&data, &r).len(), 6);
}

#[test]
fn face_indices_make_two_triangles_per_quad() {
    assert!(face_indices(0).is_empty());
    assert_eq!(face_indices(2), vec![0, 1, 2, 0, 2, 3, 4, 5, 6, 4, 6, 7]);
    let many = face_indices(1000);
    assert_eq!(many.len(), 6000);
    assert!(many.iter().all(|i| *i < 4000));
}

#[test]
fn collider_triangles_flip_winding() {
    assert_eq!(collider_triangles(0, &vec![0, 1, 2]), None);
    assert_eq!(collider_triangles(4, &vec![0, 1]), None);
    assert_eq!(collider_triangles(4, &vec![]), None);
    assert_eq!(collider_triangles(4, &vec![0, 1, 2, 3]), Some(vec![[0, 2, 1]]));
    assert_eq!(
        collider_triangles(4, &vec![0, 1, 2, 0, 2, 3]),
        Some(vec![[0, 2, 1], [0, 3, 2]])
    );
}

#[test]
fn terrain_layers() {
    let r = registry();
    assert_eq!(terrain_block(6, 5, false, &r), AIR);
    assert_eq!(terrain_block(0, 5, true, &r), BEDROCK);
    assert_eq!(terrain_block(0, 0, false, &r), BEDROCK);
    assert_eq!(terrain_block(10, 10, false, &r), SNOW);
    assert_eq!(terrain_block(9, 9, false, &r), SNOW);
    assert_eq!(terrain_block(8, 8, false, &r), GRASS);
    assert_eq!(terrain_block(5, 5, false, &r), GRASS);
    assert_eq!(terrain_block(-2, -2, false, &r), GRASS);
    assert_eq!(terrain_block(-3, -3, false, &r), SAND);
    assert_eq!(terrain_block(4, 5, false, &r), DIRT);
    assert_eq!(terrain_block(2, 5, false, &r), DIRT);
    assert_eq!(terrain_block(2, 5, true, &r), GRAVEL);
    assert_eq!(terrain_block(1, 5, true, &r), STONE);
    assert_eq!(terrain_block(1, 200, false, &r), STONE);
}

#[test]
fn terrain_at_the_integer_limits() {
    let r = registry();
    assert_eq!(terrain_block(i32::MIN, i32::MIN, false, &r), SAND);
    assert_eq!(terrain_block(i32::MIN + 1, i32::MIN + 2, false, &r), DIRT);
    assert_eq!(terrain_block(i32::MIN, i32::MAX, false, &r), STONE);
    assert_eq!(terrain_block(i32::MAX, i32::MIN, false, &r), AIR);
}

#[test]
fn unknown_names_give_air() {
    let mut r: BlockRegistry<()> = BlockRegistry::new();
    r.register("air".to_string(), ());
    r.register("stone".to_string(), ());
    r.resolve_air();
    assert_eq!(terrain_block(1, 5, false, &r), 1);
    assert_eq!(terrain_block(5, 5, false, &r), 0);
    assert_eq!(terrain_block(0, 5, false, &r), 0);
}

#[test]
fn surface_heights_are_clamped() {
    assert_eq!(clamp_surface_height(-40), 2);
    assert_eq!(clamp_surface_height(2), 2);
    assert_eq!(clamp_surface_height(100), 100);
    assert_eq!(clamp_surface_height(255), 255);
    assert_eq!(clamp_surface_height(i32::MAX), 255);
}

#[test]
fn generated_chunk_follows_the_samples() {
    let r = registry();
    let mut surface = vec![5; 256];
    surface[0] = 300; // column (0, 0)
    surface[16] = -10; // column (1, 0)
    let mut gravel = vec![false; 4096];
    gravel[254] = true; // (x 0, y 254)
    gravel[2 * 256 + 3] = true; // (x 2, y 3)
    let samples = TerrainSamples { surface, gravel };
    let mut heights = HeightMap::new();
    heights.insert(100, 100, 42);
    let data = generate_block_data(-1, 2, &samples, &mut heights, &r);
    assert_eq!(data.blocks.len(), 65536);

    assert_eq!(data.get(0, 0, 0), BEDROCK);
    assert_eq!(data.get(0, 251, 0), STONE);
    assert_eq!(data.get(0, 253, 0), DIRT);
    assert_eq!(data.get(0, 254, 0), GRAVEL);
    assert_eq!(data.get(0, 255, 0), SNOW);

    assert_eq!(data.get(1, 0, 0), BEDROCK);
    assert_eq!(data.get(1, 1, 0), DIRT);
    assert_eq!(data.get(1, 2, 0), GRASS);
    assert_eq!(data.get(1, 3, 0), AIR);

    assert_eq!(data.get(2, 1, 3), STONE);
    assert_eq!(data.get(2, 2, 3), DIRT);
    assert_eq!(data.get(2, 3, 3), GRAVEL);
    assert_eq!(data.get(2, 4, 3), DIRT);
    assert_eq!(data.get(2, 5, 3), GRASS);
    assert_eq!(data.get(2, 6, 3), AIR);
    assert_eq!(data.get(15, 255, 15), AIR);

    assert_eq!(heights.get(-16, 32), Some(255));
    assert_eq!(heights.get(-15, 32), Some(2));
    assert_eq!(heights.get(-14, 35), Some(5));
    assert_eq!(heights.get(-1, 47), Some(5));
    assert_eq!(heights.get(0, 32), None);
    assert_eq!(heights.get(-16, 48), None);
    assert_eq!(heights.get(100, 100), Some(42));
}

#[test]
fn regenerating_a_chunk_overwrites_its_heights() {
    let r = registry();
    let samples = TerrainSamples { surface: vec![7; 256], gravel: vec![false; 4096] };
    let mut heights = HeightMap::new();
    heights.insert(3, 4, 99);
    generate_block_data(0, 0, &samples, &mut heights, &r);
    assert_eq!(heights.get(3, 4), Some(7));
}

#[test]
fn neighbors_in_order() {
    let c = |x, z| ChunkCoord { x, z };
    assert_eq!(
        neighbor_chunks(c(2, -3)),
        vec![
            c(2, -3),
            c(3, -3),
            c(1, -3),
            c(2, -2),
            c(2, -4),
            c(3, -2),
            c(1, -4),
            c(3, -4),
            c(1, -2),
        ]
    );
}

#[test]
fn entering_chunks_generates_missing_neighbors() {
    let c = |x, z| ChunkCoord { x, z };
    let mut last = LastPlayerChunk(None);
    let mut spawned = SpawnedChunks::new();
    let first = chunks_to_generate(&mut last, &mut spawned, c(0, 0));
    assert_eq!(first, neighbor_chunks(c(0, 0)));
    assert_eq!(last.0, Some(c(0, 0)));
    for n in neighbor_chunks(c(0, 0)) {
        assert!(spawned.contains(n));
    }

    let again = chunks_to_generate(&mut last, &mut spawned, c(0, 0));
    assert!(again.is_empty());

    let east = chunks_to_generate(&mut last, &mut spawned, c(1, 0));
    assert_eq!(east, vec![c(2, 0), c(2, 1), c(2, -1)]);
    assert_eq!(last.0, Some(c(1, 0)));
    assert!(spawned.contains(c(2, -1)));
    assert!(!spawned.contains(c(3, 0)));

    let back = chunks_to_generate(&mut last, &mut spawned, c(0, 0));
    assert!(back.is_empty());
    assert_eq!(last.0, Some(c(0, 0)));
}

#[test]
fn spawned_chunks_before_the_first_visit_are_skipped() {
    let c = |x, z| ChunkCoord { x, z };
    let mut last = LastPlayerChunk(Some(c(5, 5)));
    let mut spawned = SpawnedChunks::new();
    assert!(spawned.insert(c(0, 0)));
    assert!(!spawned.insert(c(0, 0)));
    spawned.insert(c(-1, -1));
    let fresh = chunks_to_generate(&mut last, &mut spawned, c(0, 0));
    assert_eq!(fresh, vec![c(1, 0), c(-1, 0), c(0, 1), c(0, -1), c(1, 1), c(1, -1), c(-1, 1)]);
}

#[test]
fn standing_still_at_the_edge_of_the_world() {
    let edge = ChunkCoord { x: i32::MAX, z: i32::MIN };
    let mut last = LastPlayerChunk(Some(edge));
    let mut spawned = SpawnedChunks::new();
    let fresh = chunks_to_generate(&mut last, &mut spawned, edge);
    assert!(fresh.is_empty());
    assert_eq!(last.0, Some(edge));
    assert!(!spawned.contains(edge));
}
