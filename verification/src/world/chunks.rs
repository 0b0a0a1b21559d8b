//! Chunks: block storage, terrain layering, visible faces, collider
//! triangles, and which neighbouring chunks to generate.

use crate::config::{BlockRegistry, HeightMap, LastPlayerChunk, SpawnedChunks};
use crate::world::blocks::{face_dir, face_offset, is_air, spec_is_air};
use crate::{CHUNK_FACE_SLOTS, CHUNK_VOLUME};
use vstd::prelude::*;

verus! {

/// Marks an entity as a chunk.
#[derive(Clone, Copy, Debug)]
pub struct Chunk;

/// The position of a chunk, in chunks.
#[derive(Clone, Copy, Debug, PartialEq, Eq, Hash, Structural)]
pub struct ChunkCoord {
    pub x: i32,
    pub z: i32,
}

/// Whether `(x, y, z)` lies inside a chunk.
pub open spec fn in_chunk(x: int, y: int, z: int) -> bool {
    0 <= x < 16 && 0 <= y < 256 && 0 <= z < 16
}

/// The slot of block `(x, y, z)` in a chunk's storage: x, then y, then z.
pub open spec fn block_slot(x: int, y: int, z: int) -> int {
    x * 4096 + y * 16 + z
}

/// The x coordinate of the block stored in slot `i`.
pub open spec fn slot_x(i: int) -> int {
    i / 4096
}

/// The y coordinate of the block stored in slot `i`.
pub open spec fn slot_y(i: int) -> int {
    (i / 16) % 256
}

/// The z coordinate of the block stored in slot `i`.
pub open spec fn slot_z(i: int) -> int {
    i % 16
}

/// The blocks of a chunk: block `(x, y, z)` is at `blocks[block_slot(x, y, z)]`.
pub struct ChunkData {
    pub blocks: Vec<u16>,
}

impl ChunkData {
    /// The storage holds one id per block.
    pub open spec fn wf(&self) -> bool {
        self.blocks.len() == CHUNK_VOLUME
    }

    /// The id of block `(x, y, z)`.
    pub open spec fn block(&self, x: int, y: int, z: int) -> u16 {
        self.blocks@[block_slot(x, y, z)]
    }

    /// A chunk in which every block is `air`.
    pub fn empty(air: u16) -> (data: Self)
        ensures
            data.wf(),
            forall|x: int, y: int, z: int| in_chunk(x, y, z) ==> #[trigger] data.block(x, y, z) == air,
    {
        let blocks = vec![air; CHUNK_VOLUME];
        let data = ChunkData { blocks };
        assert forall|x: int, y: int, z: int| in_chunk(x, y, z) implies #[trigger] data.block(x, y, z) == air by {
            let i = block_slot(x, y, z);
            assert(0 <= i < CHUNK_VOLUME);
            assert(cloned(air, data.blocks@[i]));
        }
        data
    }

    /// The id of block `(x, y, z)`.
    pub fn get(&self, x: usize, y: usize, z: usize) -> (id: u16)
        requires
            self.wf(),
            in_chunk(x as int, y as int, z as int),
        ensures
            id == self.block(x as int, y as int, z as int),
    {
        self.blocks[x * 4096 + y * 16 + z]
    }
}

/// A face of a solid block that borders air, with the block's id.
#[derive(Clone, Copy, Debug, PartialEq, Eq, Structural)]
pub struct VisibleFace {
    pub x: usize,
    pub y: usize,
    pub z: usize,
    /// Which face: top, bottom, +x, -x, +z, -z.
    pub face: usize,
    pub id: u16,
}

/// Face slot `n` is face `n % 6` of the block in slot `n / 6`; it shows when
/// that block is not air and its neighbour behind the face is.
pub open spec fn face_shows(data: ChunkData, air: u16, n: int) -> bool {
    let i = n / 6;
    let d = face_dir(n % 6);
    &&& data.blocks@[i] != air
    &&& spec_is_air(data, air, slot_x(i) + d.0, slot_y(i) + d.1, slot_z(i) + d.2)
}

/// The face described by face slot `n`.
pub open spec fn face_of_slot(data: ChunkData, n: int) -> VisibleFace {
    let i = n / 6;
    VisibleFace {
        x: slot_x(i) as usize,
        y: slot_y(i) as usize,
        z: slot_z(i) as usize,
        face: (n % 6) as usize,
        id: data.blocks@[i],
    }
}

/// The faces that show among the first `n` face slots, in slot order.
pub open spec fn faces_shown(data: ChunkData, air: u16, n: nat) -> Seq<VisibleFace>
    decreases n,
{
    if n == 0 {
        Seq::empty()
    } else {
        let before = faces_shown(data, air, (n - 1) as nat);
        if face_shows(data, air, n - 1) {
            before.push(face_of_slot(data, n - 1))
        } else {
            before
        }
    }
}

/// The faces of the chunk's solid blocks that border air (positions outside
/// the chunk count as air), ordered by x, then y, then z, then face.
pub fn visible_faces<D>(data: &ChunkData, registry: &BlockRegistry<D>) -> (faces: Vec<VisibleFace>)
    requires
        data.wf(),
    ensures
        faces@ == faces_shown(*data, registry.air, CHUNK_FACE_SLOTS as nat),
{
    let air = registry.air;
    let mut faces: Vec<VisibleFace> = Vec::new();
    let mut n: usize = 0;
    while n < CHUNK_FACE_SLOTS
        invariant
            n <= CHUNK_FACE_SLOTS,
            data.wf(),
            air == registry.air,
            faces@ == faces_shown(*data, air, n as nat),
        decreases CHUNK_FACE_SLOTS - n,
    {
        let i = n / 6;
        let f = n % 6;
        let id = data.blocks[i];
        if id != air {
            let x = i / 4096;
            let y = (i / 16) % 256;
            let z = i % 16;
            let (dx, dy, dz) = face_offset(f);
            if is_air(registry, data, x as i32 + dx, y as i32 + dy, z as i32 + dz) {
                faces.push(VisibleFace { x, y, z, face: f, id });
            }
        }
        n = n + 1;
    }
    faces
}

/// The block at height `wy` of a column whose surface is at `surface_height`:
/// air above the surface, bedrock at height 0, snow, sand or grass on the
/// surface (by its height), gravel or dirt in the three layers below it
/// (gravel where `gravel` holds), and stone deeper down. Names that the
/// registry does not know give air.
pub open spec fn terrain_block_spec<D>(
    registry: BlockRegistry<D>,
    wy: int,
    surface_height: int,
    gravel: bool,
) -> u16 {
    if wy > surface_height {
        registry.air
    } else if wy == 0 {
        registry.spec_get_or_air("bedrock"@)
    } else if wy == surface_height {
        if surface_height > 8 {
            registry.spec_get_or_air("snow"@)
        } else if surface_height < -2 {
            registry.spec_get_or_air("sand"@)
        } else {
            registry.spec_get_or_air("grass"@)
        }
    } else if wy >= surface_height - 3 {
        if gravel {
            registry.spec_get_or_air("gravel"@)
        } else {
            registry.spec_get_or_air("dirt"@)
        }
    } else {
        registry.spec_get_or_air("stone"@)
    }
}

/// The block at height `wy` of a column whose surface is at `surface_height`;
/// `gravel` says whether the cave noise at that spot is high enough for gravel.
pub fn terrain_block<D>(wy: i32, surface_height: i32, gravel: bool, registry: &BlockRegistry<D>) -> (id: u16)
    ensures
        id == terrain_block_spec(*registry, wy as int, surface_height as int, gravel),
{
    if wy > surface_height {
        return registry.air;
    }
    if wy == 0 {
        return registry.get_or_air("bedrock");
    }
    if wy == surface_height {
        if surface_height > 8 {
            registry.get_or_air("snow")
        } else if surface_height < -2 {
            registry.get_or_air("sand")
        } else {
            registry.get_or_air("grass")
        }
    } else if (wy as i64) >= (surface_height as i64) - 3 {
        if gravel {
            registry.get_or_air("gravel")
        } else {
            registry.get_or_air("dirt")
        }
    } else {
        registry.get_or_air("stone")
    }
}

/// What the noise fields give for one chunk, as integers: the raw surface
/// height of each column (`surface[x * 16 + z]`, before clamping), and whether
/// the cave noise allows gravel at each `(x, y)` (`gravel[x * 256 + y]`).
pub struct TerrainSamples {
    pub surface: Vec<i32>,
    pub gravel: Vec<bool>,
}

impl TerrainSamples {
    /// One sample per column and one gravel flag per `(x, y)`.
    pub open spec fn wf(&self) -> bool {
        self.surface.len() == 256 && self.gravel.len() == 4096
    }

    /// The surface height of column `(x, z)`, clamped to the world.
    pub open spec fn column_surface(&self, x: int, z: int) -> i32 {
        clamp_surface(self.surface@[x * 16 + z])
    }

    /// Whether gravel may replace dirt at `(x, y)`.
    pub open spec fn gravel_at(&self, x: int, y: int) -> bool {
        self.gravel@[x * 256 + y]
    }
}

/// A raw surface height clamped to `2 ..= MAX_HEIGHT - 1`.
pub open spec fn clamp_surface(raw: i32) -> i32 {
    if raw < 2 {
        2
    } else if raw > 255 {
        255
    } else {
        raw
    }
}

/// Clamps a raw surface height to `2 ..= MAX_HEIGHT - 1`.
pub fn clamp_surface_height(raw: i32) -> (h: i32)
    ensures
        h == clamp_surface(raw),
{
    if raw < 2 {
        2
    } else if raw > 255 {
        255
    } else {
        raw
    }
}

/// The chunk at `(cx, cz)` can be addressed in block coordinates.
pub open spec fn chunk_in_range(cx: int, cz: int) -> bool {
    &&& i32::MIN <= cx * 16
    &&& cx * 16 + 15 <= i32::MAX
    &&& i32::MIN <= cz * 16
    &&& cz * 16 + 15 <= i32::MAX
}

/// Whether column `key` (in blocks) lies in chunk `(cx, cz)` among its first
/// `count` columns (ordered by x, then z).
pub open spec fn column_among(cx: int, cz: int, key: (i32, i32), count: int) -> bool {
    let x = key.0 - cx * 16;
    let z = key.1 - cz * 16;
    0 <= x < 16 && 0 <= z < 16 && x * 16 + z < count
}

/// The surface heights of the first `count` columns of chunk `(cx, cz)`.
pub open spec fn chunk_heights(cx: int, cz: int, samples: TerrainSamples, count: int) -> Map<(i32, i32), i32> {
    Map::new(
        |key: (i32, i32)| column_among(cx, cz, key, count),
        |key: (i32, i32)| samples.column_surface(key.0 - cx * 16, key.1 - cz * 16),
    )
}

/// Lays out the blocks of chunk `(cx, cz)` and records the surface height of
/// each of its columns in `height_map`. The surface of column `(x, z)` is its
/// raw sample clamped to `2 ..= 255`; each block is `terrain_block` of its
/// height, that surface, and the gravel flag at `(x, y)`.
pub fn generate_block_data<D>(
    cx: i32,
    cz: i32,
    samples: &TerrainSamples,
    height_map: &mut HeightMap,
    registry: &BlockRegistry<D>,
) -> (data: ChunkData)
    requires
        samples.wf(),
        chunk_in_range(cx as int, cz as int),
    ensures
        data.wf(),
        forall|x: int, y: int, z: int|
            in_chunk(x, y, z) ==> #[trigger] data.block(x, y, z) == terrain_block_spec(
                *registry,
                y,
                samples.column_surface(x, z) as int,
                samples.gravel_at(x, y),
            ),
        final(height_map)@ == old(height_map)@.union_prefer_right(
            chunk_heights(cx as int, cz as int, *samples, 256),
        ),
{
    let base_x = cx * 16;
    let base_z = cz * 16;
    let mut c: usize = 0;
    while c < 256
        invariant
            c <= 256,
            samples.wf(),
            base_x == cx * 16,
            base_z == cz * 16,
            chunk_in_range(cx as int, cz as int),
            height_map@ == old(height_map)@.union_prefer_right(
                chunk_heights(cx as int, cz as int, *samples, c as int),
            ),
        decreases 256 - c,
    {
        let x = c / 16;
        let z = c % 16;
        let wx = base_x + x as i32;
        let wz = base_z + z as i32;
        let surface = clamp_surface_height(samples.surface[c]);
        let ghost before = height_map@;
        height_map.insert(wx, wz, surface);
        proof {
            let next = chunk_heights(cx as int, cz as int, *samples, c as int + 1);
            assert(old(height_map)@.union_prefer_right(next) =~= before.insert((wx, wz), surface));
        }
        c = c + 1;
    }
    let mut blocks: Vec<u16> = Vec::new();
    let mut i: usize = 0;
    while i < CHUNK_VOLUME
        invariant
            i <= CHUNK_VOLUME,
            samples.wf(),
            blocks@.len() == i,
            forall|j: int|
                0 <= j < i ==> #[trigger] blocks@[j] == terrain_block_spec(
                    *registry,
                    slot_y(j),
                    samples.column_surface(slot_x(j), slot_z(j)) as int,
                    samples.gravel_at(slot_x(j), slot_y(j)),
                ),
        decreases CHUNK_VOLUME - i,
    {
        let x = i / 4096;
        let y = (i / 16) % 256;
        let z = i % 16;
        let surface = clamp_surface_height(samples.surface[x * 16 + z]);
        let gravel = samples.gravel[x * 256 + y];
        let id = terrain_block(y as i32, surface, gravel, registry);
        blocks.push(id);
        i = i + 1;
    }
    let data = ChunkData { blocks };
    assert forall|x: int, y: int, z: int| in_chunk(x, y, z) implies #[trigger] data.block(x, y, z) == terrain_block_spec(
        *registry,
        y,
        samples.column_surface(x, z) as int,
        samples.gravel_at(x, y),
    ) by {
        lemma_slot_decode(x, y, z);
    }
    data
}

/// Decoding the slot of `(x, y, z)` gives `(x, y, z)` back.
pub proof fn lemma_slot_decode(x: int, y: int, z: int)
    requires
        in_chunk(x, y, z),
    ensures
        0 <= block_slot(x, y, z) < 65536,
        slot_x(block_slot(x, y, z)) == x,
        slot_y(block_slot(x, y, z)) == y,
        slot_z(block_slot(x, y, z)) == z,
{
    let i = block_slot(x, y, z);
    assert(i / 4096 == x) by (nonlinear_arith)
        requires i == x * 4096 + y * 16 + z, 0 <= y < 256, 0 <= z < 16;
    assert(i / 16 == x * 256 + y) by (nonlinear_arith)
        requires i == x * 4096 + y * 16 + z, 0 <= z < 16;
    assert((x * 256 + y) % 256 == y) by (nonlinear_arith)
        requires 0 <= x, 0 <= y < 256;
    assert(i % 16 == z) by (nonlinear_arith)
        requires i == x * 4096 + y * 16 + z, 0 <= x, 0 <= y, 0 <= z < 16;
}

/// The corner of a face's quad that the `j`-th index of its two triangles
/// names: `0, 1, 2` and `0, 2, 3`.
pub open spec fn quad_corner(j: int) -> int {
    if j == 0 || j == 3 {
        0
    } else if j == 1 {
        1
    } else if j == 2 || j == 4 {
        2
    } else {
        3
    }
}

/// The triangle indices of `face_count` quads whose four vertices each are
/// laid out one after another: quad `k` has vertices `4k .. 4k + 4` and gives
/// the triangles `(4k, 4k + 1, 4k + 2)` and `(4k, 4k + 2, 4k + 3)`.
pub fn face_indices(face_count: usize) -> (indices: Vec<u32>)
    requires
        face_count <= CHUNK_FACE_SLOTS,
    ensures
        indices@.len() == 6 * face_count,
        forall|i: int|
            0 <= i < indices@.len() ==> #[trigger] indices@[i] == 4 * (i / 6) + quad_corner(i % 6),
{
    let mut indices: Vec<u32> = Vec::new();
    let mut k: usize = 0;
    while k < face_count
        invariant
            k <= face_count,
            face_count <= CHUNK_FACE_SLOTS,
            indices@.len() == 6 * k,
            forall|i: int|
                0 <= i < indices@.len() ==> #[trigger] indices@[i] == 4 * (i / 6) + quad_corner(i % 6),
        decreases face_count - k,
    {
        let base = (4 * k) as u32;
        let ghost before = indices@;
        indices.push(base);
        indices.push(base + 1);
        indices.push(base + 2);
        indices.push(base);
        indices.push(base + 2);
        indices.push(base + 3);
        assert forall|i: int| 0 <= i < indices@.len() implies #[trigger] indices@[i] == 4 * (i / 6) + quad_corner(i % 6) by {
            if i >= 6 * k {
                assert(i / 6 == k) by (nonlinear_arith)
                    requires 6 * k <= i < 6 * k + 6;
                assert(i % 6 == i - 6 * k) by (nonlinear_arith)
                    requires 6 * k <= i < 6 * k + 6;
            } else {
                assert(indices@[i] == before[i]);
            }
        }
        k = k + 1;
    }
    indices
}

/// The triangles of an index list with each triangle's winding flipped
/// (`(a, b, c)` becomes `(a, c, b)`); trailing indices that do not make a
/// whole triangle are dropped. `None` when there are no vertices or no
/// triangle.
pub fn collider_triangles(vertex_count: usize, indices: &Vec<u32>) -> (triangles: Option<Vec<[u32; 3]>>)
    ensures
        triangles is None <==> (vertex_count == 0 || indices@.len() < 3),
        triangles matches Some(t) ==> {
            &&& t@.len() == indices@.len() / 3
            &&& forall|k: int|
                0 <= k < t@.len() ==> #[trigger] t@[k]@ == seq![
                    indices@[3 * k],
                    indices@[3 * k + 2],
                    indices@[3 * k + 1],
                ]
        },
{
    if vertex_count == 0 {
        return None;
    }
    let count = indices.len() / 3;
    assert(3 * count <= indices@.len()) by (nonlinear_arith)
        requires count == indices@.len() / 3;
    let mut triangles: Vec<[u32; 3]> = Vec::new();
    let mut k: usize = 0;
    while k < count
        invariant
            k <= count,
            count == indices@.len() / 3,
            3 * count <= indices@.len(),
            indices@.len() == indices.len(),
            triangles@.len() == k,
            forall|j: int|
                0 <= j < k ==> #[trigger] triangles@[j]@ == seq![
                    indices@[3 * j],
                    indices@[3 * j + 2],
                    indices@[3 * j + 1],
                ],
        decreases count - k,
    {
        let a = indices[3 * k];
        let b = indices[3 * k + 1];
        let c = indices[3 * k + 2];
        let tri = [a, c, b];
        assert(tri@ == seq![a, c, b]);
        triangles.push(tri);
        k = k + 1;
    }
    if triangles.len() == 0 {
        return None;
    }
    Some(triangles)
}

/// The offset of the `k`-th chunk around a centre: the centre itself, then
/// east, west, south, north, and the four diagonals.
pub open spec fn neighbor_offset(k: int) -> (int, int) {
    if k == 0 {
        (0, 0)
    } else if k == 1 {
        (1, 0)
    } else if k == 2 {
        (-1, 0)
    } else if k == 3 {
        (0, 1)
    } else if k == 4 {
        (0, -1)
    } else if k == 5 {
        (1, 1)
    } else if k == 6 {
        (-1, -1)
    } else if k == 7 {
        (1, -1)
    } else {
        (-1, 1)
    }
}

/// The chunks around `center` have coordinates that fit in an `i32`.
pub open spec fn neighbors_in_range(center: ChunkCoord) -> bool {
    &&& i32::MIN < center.x < i32::MAX
    &&& i32::MIN < center.z < i32::MAX
}

/// The `k`-th chunk around `center`.
pub open spec fn neighbor(center: ChunkCoord, k: int) -> ChunkCoord {
    ChunkCoord {
        x: (center.x + neighbor_offset(k).0) as i32,
        z: (center.z + neighbor_offset(k).1) as i32,
    }
}

/// The set key of a chunk.
pub open spec fn chunk_key(c: ChunkCoord) -> (i32, i32) {
    (c.x, c.z)
}

/// The keys of the first `n` chunks around `center`.
pub open spec fn neighbor_keys(center: ChunkCoord, n: int) -> Set<(i32, i32)> {
    Set::new(|key: (i32, i32)| exists|k: int| 0 <= k < n && key == #[trigger] chunk_key(neighbor(center, k)))
}

/// The chunks among the first `n` around `center` whose keys are not in
/// `spawned`, in order.
pub open spec fn unspawned_neighbors(spawned: Set<(i32, i32)>, center: ChunkCoord, n: nat) -> Seq<ChunkCoord>
    decreases n,
{
    if n == 0 {
        Seq::empty()
    } else {
        let before = unspawned_neighbors(spawned, center, (n - 1) as nat);
        let c = neighbor(center, n - 1);
        if spawned.contains(chunk_key(c)) {
            before
        } else {
            before.push(c)
        }
    }
}

/// The nine chunks around `center` (itself included), in the order east,
/// west, south, north, then the diagonals.
pub fn neighbor_chunks(center: ChunkCoord) -> (chunks: Vec<ChunkCoord>)
    requires
        neighbors_in_range(center),
    ensures
        chunks@.len() == 9,
        forall|k: int| 0 <= k < 9 ==> #[trigger] chunks@[k] == neighbor(center, k),
{
    let x = center.x;
    let z = center.z;
    let chunks = vec![
        ChunkCoord { x, z },
        ChunkCoord { x: x + 1, z },
        ChunkCoord { x: x - 1, z },
        ChunkCoord { x, z: z + 1 },
        ChunkCoord { x, z: z - 1 },
        ChunkCoord { x: x + 1, z: z + 1 },
        ChunkCoord { x: x - 1, z: z - 1 },
        ChunkCoord { x: x + 1, z: z - 1 },
        ChunkCoord { x: x - 1, z: z + 1 },
    ];
    chunks
}

/// Distinct positions around a centre have distinct keys.
pub proof fn lemma_neighbors_distinct(center: ChunkCoord, j: int, k: int)
    requires
        neighbors_in_range(center),
        0 <= j < 9,
        0 <= k < 9,
        j != k,
    ensures
        chunk_key(neighbor(center, j)) != chunk_key(neighbor(center, k)),
{
}

/// What happens when the player stands in chunk `current`, given the chunk
/// they were last seen in and the set of generated chunks: the new last
/// chunk, the new set, and the chunks to generate, in order.
pub open spec fn chunk_plan(
    last: Option<ChunkCoord>,
    spawned: Set<(i32, i32)>,
    current: ChunkCoord,
) -> (Option<ChunkCoord>, Set<(i32, i32)>, Seq<ChunkCoord>) {
    if last == Some(current) {
        (last, spawned, Seq::empty())
    } else {
        (
            Some(current),
            spawned.union(neighbor_keys(current, 9)),
            unspawned_neighbors(spawned, current, 9),
        )
    }
}

/// When the player has moved into a new chunk `current`, records it and marks
/// the nine chunks around it as generated; returns those of them that were
/// not generated before, in neighbour order. Returns nothing and changes
/// nothing while the player stays in the same chunk.
pub fn chunks_to_generate(
    last_chunk: &mut LastPlayerChunk,
    spawned: &mut SpawnedChunks,
    current: ChunkCoord,
) -> (fresh: Vec<ChunkCoord>)
    requires
        old(last_chunk).0 != Some(current) ==> neighbors_in_range(current),
    ensures
        ({
            let plan = chunk_plan(old(last_chunk).0, old(spawned)@, current);
            &&& final(last_chunk).0 == plan.0
            &&& final(spawned)@ == plan.1
            &&& fresh@ == plan.2
        }),
{
    let same = match last_chunk.0 {
        Some(c) => c.x == current.x && c.z == current.z,
        None => false,
    };
    if same {
        return Vec::new();
    }
    last_chunk.0 = Some(current);
    let neighbors = neighbor_chunks(current);
    let ghost start = spawned@;
    let mut fresh: Vec<ChunkCoord> = Vec::new();
    let mut k: usize = 0;
    while k < 9
        invariant
            k <= 9,
            neighbors_in_range(current),
            neighbors@.len() == 9,
            forall|j: int| 0 <= j < 9 ==> #[trigger] neighbors@[j] == neighbor(current, j),
            spawned@ == start.union(neighbor_keys(current, k as int)),
            fresh@ == unspawned_neighbors(start, current, k as nat),
        decreases 9 - k,
    {
        let n = neighbors[k];
        let ghost before = spawned@;
        assert(before.contains(chunk_key(n)) == start.contains(chunk_key(n))) by {
            if !start.contains(chunk_key(n)) && before.contains(chunk_key(n)) {
                let j = choose|j: int| 0 <= j < k && chunk_key(n) == #[trigger] chunk_key(neighbor(current, j));
                lemma_neighbors_distinct(current, j, k as int);
            }
        }
        if spawned.insert(n) {
            fresh.push(n);
        }
        assert(spawned@ =~= start.union(neighbor_keys(current, k as int + 1))) by {
            assert forall|key: (i32, i32)| neighbor_keys(current, k as int + 1).contains(key) implies
                neighbor_keys(current, k as int).contains(key) || key == chunk_key(n) by {
                let j = choose|j: int| 0 <= j < k + 1 && key == #[trigger] chunk_key(neighbor(current, j));
                if j < k {
                    assert(neighbor_keys(current, k as int).contains(key));
                }
            }
            assert forall|key: (i32, i32)| neighbor_keys(current, k as int).contains(key) implies
                neighbor_keys(current, k as int + 1).contains(key) by {
                let j = choose|j: int| 0 <= j < k && key == #[trigger] chunk_key(neighbor(current, j));
            }
            assert(neighbor_keys(current, k as int + 1).contains(chunk_key(n)));
        }
        k = k + 1;
    }
    fresh
}

/// Standing in the same chunk twice in a row generates nothing the second
/// time and leaves the set of generated chunks as the first visit left it.
pub proof fn law_same_chunk_generates_once(
    last: Option<ChunkCoord>,
    spawned: Set<(i32, i32)>,
    current: ChunkCoord,
)
    ensures
        ({
            let first = chunk_plan(last, spawned, current);
            let second = chunk_plan(first.0, first.1, current);
            &&& second.0 == Some(current)
            &&& second.1 == first.1
            &&& second.2 == Seq::<ChunkCoord>::empty()
        }),
{
}

/// The chunks to generate among the first `n` around `center` are exactly
/// those whose keys were not generated yet: each appears once, in order.
pub proof fn lemma_unspawned_neighbors(spawned: Set<(i32, i32)>, center: ChunkCoord, n: nat)
    requires
        neighbors_in_range(center),
        n <= 9,
    ensures
        forall|i: int|
            0 <= i < unspawned_neighbors(spawned, center, n).len() ==> {
                let c = #[trigger] unspawned_neighbors(spawned, center, n)[i];
                &&& !spawned.contains(chunk_key(c))
                &&& neighbor_keys(center, n as int).contains(chunk_key(c))
            },
        forall|i: int, j: int|
            0 <= i < j < unspawned_neighbors(spawned, center, n).len() ==> chunk_key(
                #[trigger] unspawned_neighbors(spawned, center, n)[i],
            ) != chunk_key(#[trigger] unspawned_neighbors(spawned, center, n)[j]),
        forall|key: (i32, i32)|
            #[trigger] neighbor_keys(center, n as int).contains(key) && !spawned.contains(key) ==> exists|i: int|
                0 <= i < unspawned_neighbors(spawned, center, n).len() && chunk_key(
                    #[trigger] unspawned_neighbors(spawned, center, n)[i],
                ) == key,
    decreases n,
{
    if n > 0 {
        let m = (n - 1) as nat;
        lemma_unspawned_neighbors(spawned, center, m);
        let before = unspawned_neighbors(spawned, center, m);
        let now = unspawned_neighbors(spawned, center, n);
        let c = neighbor(center, m as int);
        assert(neighbor_keys(center, n as int).contains(chunk_key(c)));
        assert forall|i: int| 0 <= i < before.len() implies neighbor_keys(center, n as int).contains(
            chunk_key(#[trigger] before[i]),
        ) by {
            assert(neighbor_keys(center, m as int).contains(chunk_key(before[i])));
            let j = choose|j: int| 0 <= j < m && chunk_key(before[i]) == #[trigger] chunk_key(neighbor(center, j));
        }
        assert forall|i: int| 0 <= i < before.len() implies chunk_key(#[trigger] before[i]) != chunk_key(c) by {
            assert(neighbor_keys(center, m as int).contains(chunk_key(before[i])));
            let j = choose|j: int| 0 <= j < m && chunk_key(before[i]) == #[trigger] chunk_key(neighbor(center, j));
            lemma_neighbors_distinct(center, j, m as int);
        }
        assert forall|key: (i32, i32)|
            #[trigger] neighbor_keys(center, n as int).contains(key) && !spawned.contains(key) implies exists|i: int|
                0 <= i < now.len() && chunk_key(#[trigger] now[i]) == key by {
            let j = choose|j: int| 0 <= j < n && key == #[trigger] chunk_key(neighbor(center, j));
            if j < m {
                assert(neighbor_keys(center, m as int).contains(key));
                let i = choose|i: int| 0 <= i < before.len() && chunk_key(#[trigger] before[i]) == key;
                assert(now[i] == before[i]);
            } else {
                assert(now[before.len() as int] == c);
            }
        }
    }
}

/// When the player enters a new chunk, the nine chunks around it end up
/// generated; the chunks handed out for generation are exactly the ones that
/// were not generated before, each once; and nothing generated is forgotten.
pub proof fn law_new_chunk_generates_missing_neighbors(
    last: Option<ChunkCoord>,
    spawned: Set<(i32, i32)>,
    current: ChunkCoord,
)
    requires
        neighbors_in_range(current),
        last != Some(current),
    ensures
        ({
            let plan = chunk_plan(last, spawned, current);
            &&& plan.0 == Some(current)
            &&& spawned.subset_of(plan.1)
            &&& forall|k: int| 0 <= k < 9 ==> plan.1.contains(#[trigger] chunk_key(neighbor(current, k)))
            &&& forall|i: int|
                0 <= i < plan.2.len() ==> !spawned.contains(chunk_key(#[trigger] plan.2[i]))
                    && plan.1.contains(chunk_key(plan.2[i]))
            &&& forall|i: int, j: int|
                0 <= i < j < plan.2.len() ==> chunk_key(#[trigger] plan.2[i]) != chunk_key(#[trigger] plan.2[j])
            &&& forall|key: (i32, i32)|
                #[trigger] plan.1.contains(key) && !spawned.contains(key) ==> exists|i: int|
                    0 <= i < plan.2.len() && chunk_key(#[trigger] plan.2[i]) == key
        }),
{
    lemma_unspawned_neighbors(spawned, current, 9);
    let plan = chunk_plan(last, spawned, current);
    assert forall|k: int| 0 <= k < 9 implies plan.1.contains(#[trigger] chunk_key(neighbor(current, k))) by {
        assert(neighbor_keys(current, 9).contains(chunk_key(neighbor(current, k))));
    }
    assert forall|key: (i32, i32)| #[trigger] plan.1.contains(key) && !spawned.contains(key) implies exists|i: int|
        0 <= i < plan.2.len() && chunk_key(#[trigger] plan.2[i]) == key by {
        assert(neighbor_keys(current, 9).contains(key));
        let fresh = unspawned_neighbors(spawned, current, 9);
        assert(plan.2 == fresh);
        assert(exists|i: int| 0 <= i < fresh.len() && chunk_key(#[trigger] fresh[i]) == key);
    }
}

/// A chunk made only of air shows no face.
pub proof fn law_air_chunk_shows_nothing(data: ChunkData, air: u16, n: nat)
    requires
        data.wf(),
        n <= CHUNK_FACE_SLOTS,
        forall|i: int| 0 <= i < CHUNK_VOLUME ==> data.blocks@[i] == air,
    ensures
        faces_shown(data, air, n) == Seq::<VisibleFace>::empty(),
    decreases n,
{
    if n > 0 {
        law_air_chunk_shows_nothing(data, air, (n - 1) as nat);
        assert(0 <= (n - 1) / 6 < CHUNK_VOLUME);
    }
}

/// Every face shown belongs to a block that is not air, and the neighbour
/// behind it is air.
pub proof fn law_shown_faces_are_exposed(data: ChunkData, air: u16, n: nat)
    requires
        data.wf(),
        n <= CHUNK_FACE_SLOTS,
    ensures
        forall|i: int|
            0 <= i < faces_shown(data, air, n).len() ==> {
                let f = #[trigger] faces_shown(data, air, n)[i];
                let d = face_dir(f.face as int);
                &&& f.id != air
                &&& f.id == data.block(f.x as int, f.y as int, f.z as int)
                &&& in_chunk(f.x as int, f.y as int, f.z as int)
                &&& f.face < 6
                &&& (!in_chunk(f.x + d.0, f.y + d.1, f.z + d.2) || data.block(f.x + d.0, f.y + d.1, f.z + d.2) == air)
            },
    decreases n,
{
    if n > 0 {
        let m = (n - 1) as nat;
        law_shown_faces_are_exposed(data, air, m);
        let slot = (m as int) / 6;
        assert(0 <= slot < CHUNK_VOLUME);
        let x = slot_x(slot);
        let y = slot_y(slot);
        let z = slot_z(slot);
        assert(0 <= x < 16 && 0 <= y < 256 && 0 <= z < 16);
        assert(block_slot(x, y, z) == slot) by (nonlinear_arith)
            requires x == slot / 4096, y == (slot / 16) % 256, z == slot % 16, 0 <= slot < 65536;
        let before = faces_shown(data, air, m);
        if face_shows(data, air, m as int) {
            assert(faces_shown(data, air, n) == before.push(face_of_slot(data, m as int)));
        }
    }
}

/// Every index of the quads' triangles names one of their `4 * face_count`
/// vertices.
pub proof fn law_face_indices_in_range(face_count: int, i: int)
    requires
        0 <= i < 6 * face_count,
    ensures
        0 <= 4 * (i / 6) + quad_corner(i % 6) < 4 * face_count,
{
    assert(i / 6 < face_count) by (nonlinear_arith)
        requires 0 <= i < 6 * face_count;
}

/// Generated surfaces lie inside the world, from 2 to 255.
pub proof fn law_heights_within_world(cx: int, cz: int, samples: TerrainSamples, count: int, key: (i32, i32))
    requires
        chunk_heights(cx, cz, samples, count).contains_key(key),
    ensures
        2 <= chunk_heights(cx, cz, samples, count)[key] <= 255,
{
}

/// In a column whose surface lies inside the world, the bottom block is
/// bedrock and everything above the surface is air.
pub proof fn law_column_layers<D>(registry: BlockRegistry<D>, surface: i32, gravel: bool, y: int)
    requires
        2 <= surface <= 255,
    ensures
        terrain_block_spec(registry, 0, surface as int, gravel) == registry.spec_get_or_air("bedrock"@),
        y > surface ==> terrain_block_spec(registry, y, surface as int, gravel) == registry.air,
{
}

/// The surface block of a column (other than at height 0) is chosen by the
/// surface height alone: snow above 8, sand below -2, grass otherwise; the
/// gravel flag does not change it.
pub proof fn law_surface_block_ignores_gravel<D>(registry: BlockRegistry<D>, surface: int, gravel: bool)
    requires
        surface != 0,
    ensures
        terrain_block_spec(registry, surface, surface, gravel) == terrain_block_spec(
            registry,
            surface,
            surface,
            !gravel,
        ),
        terrain_block_spec(registry, surface, surface, gravel) == if surface > 8 {
            registry.spec_get_or_air("snow"@)
        } else if surface < -2 {
            registry.spec_get_or_air("sand"@)
        } else {
            registry.spec_get_or_air("grass"@)
        },
{
}

/// The gravel flag matters only in the three layers just below the surface
/// (never at height 0): there it gives gravel in place of dirt.
pub proof fn law_gravel_only_below_surface<D>(registry: BlockRegistry<D>, wy: int, surface: int)
    ensures
        terrain_block_spec(registry, wy, surface, true) != terrain_block_spec(registry, wy, surface, false)
            ==> wy != 0 && surface - 3 <= wy < surface,
        wy != 0 && surface - 3 <= wy < surface ==> terrain_block_spec(registry, wy, surface, true)
            == registry.spec_get_or_air("gravel"@) && terrain_block_spec(registry, wy, surface, false)
            == registry.spec_get_or_air("dirt"@),
{
}

/// A face that shows among the first `m` face slots is in the list of faces
/// shown among them.
pub proof fn lemma_faces_shown_contains(data: ChunkData, air: u16, m: nat, n: int)
    requires
        0 <= n < m,
        face_shows(data, air, n),
    ensures
        faces_shown(data, air, m).contains(face_of_slot(data, n)),
    decreases m,
{
    let prev = faces_shown(data, air, (m - 1) as nat);
    let now = faces_shown(data, air, m);
    if n == m - 1 {
        assert(now == prev.push(face_of_slot(data, n)));
        assert(now[now.len() - 1] == face_of_slot(data, n));
    } else {
        lemma_faces_shown_contains(data, air, (m - 1) as nat, n);
        let k = choose|k: int| 0 <= k < prev.len() && prev[k] == face_of_slot(data, n);
        if face_shows(data, air, m - 1) {
            assert(now[k] == prev[k]);
        }
    }
}

/// Every face of a solid block of the chunk whose neighbour behind it is air
/// (or outside the chunk) is among the visible faces, with the block's
/// position, the face and the block's id.
pub proof fn law_exposed_faces_are_shown(data: ChunkData, air: u16, x: int, y: int, z: int, face: int)
    requires
        data.wf(),
        in_chunk(x, y, z),
        0 <= face < 6,
        data.block(x, y, z) != air,
        ({
            let (nx, ny, nz) = (x + face_dir(face).0, y + face_dir(face).1, z + face_dir(face).2);
            !in_chunk(nx, ny, nz) || data.block(nx, ny, nz) == air
        }),
    ensures
        faces_shown(data, air, CHUNK_FACE_SLOTS as nat).contains(
            VisibleFace {
                x: x as usize,
                y: y as usize,
                z: z as usize,
                face: face as usize,
                id: data.block(x, y, z),
            },
        ),
{
    lemma_slot_decode(x, y, z);
    let i = block_slot(x, y, z);
    let n = i * 6 + face;
    assert(n / 6 == i && n % 6 == face) by (nonlinear_arith)
        requires n == i * 6 + face, 0 <= face < 6, 0 <= i;
    assert(0 <= n < CHUNK_FACE_SLOTS);
    assert(face_shows(data, air, n));
    lemma_faces_shown_contains(data, air, CHUNK_FACE_SLOTS as nat, n);
    assert(face_of_slot(data, n) == VisibleFace {
        x: x as usize,
        y: y as usize,
        z: z as usize,
        face: face as usize,
        id: data.block(x, y, z),
    });
}

} // verus!
