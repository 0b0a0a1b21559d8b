//! Shared game resources: the block and biome registries, the seed,
//! the height map, the set of spawned chunks and the loading flags.

use crate::collections::{
    chunk_entries, chunk_set_contains, chunk_set_insert, chunk_set_new, height_entries, height_table_get,
    height_table_insert, height_table_new, name_entries, name_table_get, name_table_insert,
    name_table_new,
};
use crate::world::chunks::ChunkCoord;
use bevy::platform::collections::{HashMap, HashSet};
use vstd::prelude::*;

verus! {

/// The id stored under `name` in `table`, or `fallback` when the name is unknown.
pub open spec fn lookup_or(table: Map<Seq<char>, u16>, name: Seq<char>, fallback: u16) -> u16 {
    if table.contains_key(name) {
        table[name]
    } else {
        fallback
    }
}

/// Every id in `table` names an entry of a list of `len` definitions.
pub open spec fn ids_below(table: Map<Seq<char>, u16>, len: nat) -> bool {
    forall|name: Seq<char>| #[trigger] table.contains_key(name) ==> (table[name] as nat) < len
}

/// The table that registering `names` one after another builds: each name
/// maps to the position of its last occurrence, modulo 2^16.
pub open spec fn name_table_of(names: Seq<Seq<char>>) -> Map<Seq<char>, u16>
    decreases names.len(),
{
    if names.len() == 0 {
        Map::empty()
    } else {
        name_table_of(names.drop_last()).insert(names.last(), (names.len() - 1) as u16)
    }
}

/// The names of a list of named entries.
pub open spec fn entry_names<D>(entries: Seq<(String, D)>) -> Seq<Seq<char>> {
    entries.map_values(|entry: (String, D)| entry.0@)
}

/// The definitions of a list of named entries.
pub open spec fn entry_defs<D>(entries: Seq<(String, D)>) -> Seq<D> {
    entries.map_values(|entry: (String, D)| entry.1)
}

/// Building a table from a list of names: a name is in the table exactly when
/// it is in the list; its id is the position of its last occurrence (a later
/// duplicate wins), modulo 2^16; with at most 2^16 names, every id is a
/// position in the list.
pub proof fn law_name_table_of(names: Seq<Seq<char>>)
    ensures
        forall|name: Seq<char>| #[trigger] name_table_of(names).contains_key(name) <==> names.contains(name),
        forall|j: int|
            0 <= j < names.len() && (forall|k: int| j < k < names.len() ==> names[k] != names[j])
                ==> #[trigger] name_table_of(names)[names[j]] == j as u16,
        names.len() <= 0x10000 ==> ids_below(name_table_of(names), names.len()),
    decreases names.len(),
{
    if names.len() > 0 {
        let rest = names.drop_last();
        law_name_table_of(rest);
        let last = names.last();
        let n = names.len() - 1;
        let table = name_table_of(names);
        let before = name_table_of(rest);
        assert(table == before.insert(last, n as u16));
        assert forall|name: Seq<char>| #[trigger] name_table_of(names).contains_key(name) <==> names.contains(name) by {
            if name == last {
                assert(names[n] == name);
            } else {
                assert(before.contains_key(name) <==> rest.contains(name));
                if names.contains(name) {
                    let j = choose|j: int| 0 <= j < names.len() && names[j] == name;
                    assert(j != n);
                    assert(rest[j] == name);
                }
                if rest.contains(name) {
                    let j = choose|j: int| 0 <= j < rest.len() && rest[j] == name;
                    assert(names[j] == name);
                }
            }
        }
        assert forall|j: int|
            0 <= j < names.len() && (forall|k: int| j < k < names.len() ==> names[k] != names[j])
                implies #[trigger] name_table_of(names)[names[j]] == j as u16 by {
            if j < n {
                assert(names[n] != names[j]);
                assert(rest[j] == names[j]);
                assert forall|k: int| j < k < rest.len() implies rest[k] != rest[j] by {
                    assert(names[k] != names[j]);
                }
                assert(before[rest[j]] == j as u16);
            }
        }
        if names.len() <= 0x10000 {
            assert forall|name: Seq<char>| #[trigger] name_table_of(names).contains_key(name) implies
                (name_table_of(names)[name] as nat) < names.len() by {
                if name != last {
                    assert(name_table_of(rest).contains_key(name));
                }
            }
        }
    }
}

/// The registry of block kinds: their definitions, in the order they were
/// registered, and a table from block names to ids (positions in `defs`).
pub struct BlockRegistry<D> {
    pub defs: Vec<D>,
    pub name_to_id: HashMap<String, u16>,
    /// The id of the empty block.
    pub air: u16,
}

impl<D> BlockRegistry<D> {
    /// The names and ids of the registered blocks.
    pub open spec fn names(&self) -> Map<Seq<char>, u16> {
        name_entries(self.name_to_id)
    }

    /// Every registered id names a definition.
    pub open spec fn wf(&self) -> bool {
        ids_below(self.names(), self.defs@.len())
    }

    /// The id of the block called `name`, or the id of air.
    pub open spec fn spec_get_or_air(&self, name: Seq<char>) -> u16 {
        lookup_or(self.names(), name, self.air)
    }

    /// An empty registry whose air id is 0.
    pub fn new() -> (registry: Self)
        ensures
            registry.defs@ == Seq::<D>::empty(),
            registry.names() == Map::<Seq<char>, u16>::empty(),
            registry.air == 0,
            registry.wf(),
    {
        BlockRegistry { defs: Vec::new(), name_to_id: name_table_new(), air: 0 }
    }

    /// The id of the block called `name`; air when no block has that name.
    pub fn get_or_air(&self, name: &str) -> (id: u16)
        ensures
            id == self.spec_get_or_air(name@),
    {
        match name_table_get(&self.name_to_id, name) {
            Some(id) => id,
            None => self.air,
        }
    }

    /// Adds a block definition under `name`; its id is its position in the
    /// list of definitions, taken modulo 2^16. A later definition with the same
    /// name takes the name over.
    pub fn register(&mut self, name: String, def: D) -> (id: u16)
        ensures
            id == (old(self).defs.len() as u16),
            final(self).defs@ == old(self).defs@.push(def),
            final(self).names() == old(self).names().insert(name@, id),
            final(self).air == old(self).air,
            old(self).wf() && old(self).defs.len() < 0x10000 ==> final(self).wf(),
    {
        let id = self.defs.len() as u16;
        name_table_insert(&mut self.name_to_id, name, id);
        self.defs.push(def);
        id
    }

    /// A registry holding `entries` in order: each definition's id is its
    /// position, modulo 2^16; a name given twice keeps the later id; at the end
    /// the air id is the id of "air", or 0 when no entry has that name.
    pub fn from_entries(entries: Vec<(String, D)>) -> (registry: Self)
        ensures
            registry.defs@ == entry_defs(entries@),
            registry.names() == name_table_of(entry_names(entries@)),
            forall|name: Seq<char>| #[trigger] registry.names().contains_key(name) <==> entry_names(entries@).contains(name),
            forall|j: int|
                0 <= j < entries@.len() && (forall|k: int| j < k < entries@.len() ==> entries@[k].0@ != entries@[j].0@)
                    ==> #[trigger] registry.names()[entries@[j].0@] == j as u16,
            registry.air == lookup_or(registry.names(), "air"@, 0),
            entries@.len() <= 0x10000 ==> registry.wf(),
    {
        let ghost src = entries@;
        let mut entries = entries;
        let mut reversed: Vec<(String, D)> = Vec::new();
        while entries.len() > 0
            invariant
                entries@ + reversed@.reverse() == src,
            decreases entries.len(),
        {
            let ghost before_e = entries@;
            let ghost before_r = reversed@;
            let entry = entries.pop().unwrap();
            reversed.push(entry);
            assert(reversed@.reverse() =~= seq![entry] + before_r.reverse());
            assert(entries@ + reversed@.reverse() =~= before_e + before_r.reverse());
        }
        assert(reversed@.reverse() =~= src);
        let mut registry = Self::new();
        while reversed.len() > 0
            invariant
                reversed@.len() <= src.len(),
                reversed@.reverse() =~= src.skip(src.len() - reversed@.len()),
                registry.defs@ == entry_defs(src.take(src.len() - reversed@.len())),
                registry.names() == name_table_of(entry_names(src.take(src.len() - reversed@.len()))),
                registry.air == 0,
            decreases reversed.len(),
        {
            let ghost done = src.len() - reversed@.len();
            let ghost before_r = reversed@;
            let (name, def) = reversed.pop().unwrap();
            assert(before_r.reverse()[0] == before_r.last());
            assert(src[done] == (name, def)) by {
                assert(src.skip(done)[0] == src[done]);
            }
            assert(reversed@.reverse() =~= before_r.reverse().skip(1));
            assert(src.skip(done + 1) =~= src.skip(done).skip(1));
            registry.register(name, def);
            assert(src.take(done + 1) =~= src.take(done).push(src[done]));
            assert(entry_defs(src.take(done + 1)) =~= entry_defs(src.take(done)).push(def));
            assert(entry_names(src.take(done + 1)).drop_last() =~= entry_names(src.take(done)));
        }
        assert(src.take(src.len() as int) =~= src);
        registry.resolve_air();
        proof {
            law_name_table_of(entry_names(src));
            assert forall|j: int|
                0 <= j < src.len() && (forall|k: int| j < k < src.len() ==> src[k].0@ != src[j].0@)
                    implies #[trigger] registry.names()[src[j].0@] == j as u16 by {
                let names = entry_names(src);
                assert(names[j] == src[j].0@);
                assert forall|k: int| j < k < names.len() implies names[k] != names[j] by {
                    assert(names[k] == src[k].0@);
                }
            }
        }
        registry
    }

    /// Sets the air id to the id of the block called "air", if there is one.
    pub fn resolve_air(&mut self)
        ensures
            final(self).air == old(self).spec_get_or_air("air"@),
            final(self).defs@ == old(self).defs@,
            final(self).names() == old(self).names(),
    {
        self.air = self.get_or_air("air");
    }
}

/// The registry of biomes: their definitions, in the order they were
/// registered, and a table from biome names to ids.
pub struct BiomRegistry<D> {
    pub defs: Vec<D>,
    pub name_to_id: HashMap<String, u16>,
    /// The id of the default biome.
    pub plains: u16,
}

impl<D> BiomRegistry<D> {
    /// The names and ids of the registered biomes.
    pub open spec fn names(&self) -> Map<Seq<char>, u16> {
        name_entries(self.name_to_id)
    }

    /// Every registered id names a definition.
    pub open spec fn wf(&self) -> bool {
        ids_below(self.names(), self.defs@.len())
    }

    /// The id of the biome called `name`, or the id of plains.
    pub open spec fn spec_get_or_plains(&self, name: Seq<char>) -> u16 {
        lookup_or(self.names(), name, self.plains)
    }

    /// An empty registry whose plains id is 0.
    pub fn new() -> (registry: Self)
        ensures
            registry.defs@ == Seq::<D>::empty(),
            registry.names() == Map::<Seq<char>, u16>::empty(),
            registry.plains == 0,
            registry.wf(),
    {
        BiomRegistry { defs: Vec::new(), name_to_id: name_table_new(), plains: 0 }
    }

    /// The id of the biome called `name`; plains when no biome has that name.
    pub fn get_or_plains(&self, name: &str) -> (id: u16)
        ensures
            id == self.spec_get_or_plains(name@),
    {
        match name_table_get(&self.name_to_id, name) {
            Some(id) => id,
            None => self.plains,
        }
    }

    /// Adds a biome definition under `name`; its id is its position in the
    /// list of definitions, taken modulo 2^16.
    pub fn register(&mut self, name: String, def: D) -> (id: u16)
        ensures
            id == (old(self).defs.len() as u16),
            final(self).defs@ == old(self).defs@.push(def),
            final(self).names() == old(self).names().insert(name@, id),
            final(self).plains == old(self).plains,
            old(self).wf() && old(self).defs.len() < 0x10000 ==> final(self).wf(),
    {
        let id = self.defs.len() as u16;
        name_table_insert(&mut self.name_to_id, name, id);
        self.defs.push(def);
        id
    }

    /// A registry holding `entries` in order: each definition's id is its
    /// position, modulo 2^16; a name given twice keeps the later id; at the end
    /// the plains id is the id of "plains", or 0 when no entry has that name.
    pub fn from_entries(entries: Vec<(String, D)>) -> (registry: Self)
        ensures
            registry.defs@ == entry_defs(entries@),
            registry.names() == name_table_of(entry_names(entries@)),
            forall|name: Seq<char>| #[trigger] registry.names().contains_key(name) <==> entry_names(entries@).contains(name),
            forall|j: int|
                0 <= j < entries@.len() && (forall|k: int| j < k < entries@.len() ==> entries@[k].0@ != entries@[j].0@)
                    ==> #[trigger] registry.names()[entries@[j].0@] == j as u16,
            registry.plains == lookup_or(registry.names(), "plains"@, 0),
            entries@.len() <= 0x10000 ==> registry.wf(),
    {
        let ghost src = entries@;
        let mut entries = entries;
        let mut reversed: Vec<(String, D)> = Vec::new();
        while entries.len() > 0
            invariant
                entries@ + reversed@.reverse() == src,
            decreases entries.len(),
        {
            let ghost before_e = entries@;
            let ghost before_r = reversed@;
            let entry = entries.pop().unwrap();
            reversed.push(entry);
            assert(reversed@.reverse() =~= seq![entry] + before_r.reverse());
            assert(entries@ + reversed@.reverse() =~= before_e + before_r.reverse());
        }
        assert(reversed@.reverse() =~= src);
        let mut registry = Self::new();
        while reversed.len() > 0
            invariant
                reversed@.len() <= src.len(),
                reversed@.reverse() =~= src.skip(src.len() - reversed@.len()),
                registry.defs@ == entry_defs(src.take(src.len() - reversed@.len())),
                registry.names() == name_table_of(entry_names(src.take(src.len() - reversed@.len()))),
                registry.plains == 0,
            decreases reversed.len(),
        {
            let ghost done = src.len() - reversed@.len();
            let ghost before_r = reversed@;
            let (name, def) = reversed.pop().unwrap();
            assert(before_r.reverse()[0] == before_r.last());
            assert(src[done] == (name, def)) by {
                assert(src.skip(done)[0] == src[done]);
            }
            assert(reversed@.reverse() =~= before_r.reverse().skip(1));
            assert(src.skip(done + 1) =~= src.skip(done).skip(1));
            registry.register(name, def);
            assert(src.take(done + 1) =~= src.take(done).push(src[done]));
            assert(entry_defs(src.take(done + 1)) =~= entry_defs(src.take(done)).push(def));
            assert(entry_names(src.take(done + 1)).drop_last() =~= entry_names(src.take(done)));
        }
        assert(src.take(src.len() as int) =~= src);
        registry.resolve_plains();
        proof {
            law_name_table_of(entry_names(src));
            assert forall|j: int|
                0 <= j < src.len() && (forall|k: int| j < k < src.len() ==> src[k].0@ != src[j].0@)
                    implies #[trigger] registry.names()[src[j].0@] == j as u16 by {
                let names = entry_names(src);
                assert(names[j] == src[j].0@);
                assert forall|k: int| j < k < names.len() implies names[k] != names[j] by {
                    assert(names[k] == src[k].0@);
                }
            }
        }
        registry
    }

    /// Sets the plains id to the id of the biome called "plains", if there is one.
    pub fn resolve_plains(&mut self)
        ensures
            final(self).plains == old(self).spec_get_or_plains("plains"@),
            final(self).defs@ == old(self).defs@,
            final(self).names() == old(self).names(),
    {
        self.plains = self.get_or_plains("plains");
    }
}

/// The world seed.
#[derive(Clone, Copy, Debug, PartialEq, Eq, Structural)]
pub struct Seed(pub u64);

/// Where the player appears, in blocks.
#[derive(Clone, Copy, Debug, PartialEq, Eq, Structural)]
pub struct SpawnPoint {
    pub x: i32,
    pub y: i32,
    pub z: i32,
}

/// The surface height of every generated block column `(x, z)`.
pub struct HeightMap(pub HashMap<(i32, i32), i32>);

impl View for HeightMap {
    type V = Map<(i32, i32), i32>;

    open spec fn view(&self) -> Map<(i32, i32), i32> {
        height_entries(self.0)
    }
}

impl HeightMap {
    /// A height map with no column.
    pub fn new() -> (map: Self)
        ensures
            map@ == Map::<(i32, i32), i32>::empty(),
    {
        HeightMap(height_table_new())
    }

    /// The surface height of column `(x, z)`, if it was generated.
    pub fn get(&self, x: i32, z: i32) -> (height: Option<i32>)
        ensures
            height == (if self@.contains_key((x, z)) {
                Some(self@[(x, z)])
            } else {
                None::<i32>
            }),
    {
        height_table_get(&self.0, (x, z))
    }

    /// Records the surface height of column `(x, z)`.
    pub fn insert(&mut self, x: i32, z: i32, height: i32)
        ensures
            final(self)@ == old(self)@.insert((x, z), height),
    {
        height_table_insert(&mut self.0, (x, z), height);
    }
}

/// The chunks that were generated, by position `(x, z)`.
pub struct SpawnedChunks(pub HashSet<(i32, i32)>);

impl View for SpawnedChunks {
    type V = Set<(i32, i32)>;

    open spec fn view(&self) -> Set<(i32, i32)> {
        chunk_entries(self.0)
    }
}

impl SpawnedChunks {
    /// No chunk generated yet.
    pub fn new() -> (set: Self)
        ensures
            set@ == Set::<(i32, i32)>::empty(),
    {
        SpawnedChunks(chunk_set_new())
    }

    /// Whether the chunk at `coord` was generated.
    pub fn contains(&self, coord: ChunkCoord) -> (found: bool)
        ensures
            found == self@.contains((coord.x, coord.z)),
    {
        chunk_set_contains(&self.0, (coord.x, coord.z))
    }

    /// Marks the chunk at `coord` as generated; true when it was not before.
    pub fn insert(&mut self, coord: ChunkCoord) -> (added: bool)
        ensures
            final(self)@ == old(self)@.insert((coord.x, coord.z)),
            added == !old(self)@.contains((coord.x, coord.z)),
    {
        chunk_set_insert(&mut self.0, (coord.x, coord.z))
    }
}

/// Whether the player was spawned.
#[derive(Clone, Copy, Debug, PartialEq, Eq, Structural)]
pub struct PlayerSpawned(pub bool);

/// Whether the world is ready to be played.
#[derive(Clone, Copy, Debug, PartialEq, Eq, Structural)]
pub struct WorldReady(pub bool);

/// Whether the chunk under the spawn point was generated.
#[derive(Clone, Copy, Debug, PartialEq, Eq, Structural)]
pub struct SpawnChunkGenerated(pub bool);

/// The chunk the player was last seen in.
#[derive(Clone, Copy, Debug, PartialEq, Eq)]
pub struct LastPlayerChunk(pub Option<ChunkCoord>);

impl<D> Default for BlockRegistry<D> {
    /// An empty registry whose air id is 0.
    fn default() -> (registry: Self)
        ensures
            registry.defs@ == Seq::<D>::empty(),
            registry.names() == Map::<Seq<char>, u16>::empty(),
            registry.air == 0,
    {
        Self::new()
    }
}

impl<D> Default for BiomRegistry<D> {
    /// An empty registry whose plains id is 0.
    fn default() -> (registry: Self)
        ensures
            registry.defs@ == Seq::<D>::empty(),
            registry.names() == Map::<Seq<char>, u16>::empty(),
            registry.plains == 0,
    {
        Self::new()
    }
}

impl Default for HeightMap {
    /// A height map with no column.
    fn default() -> (map: Self)
        ensures
            map@ == Map::<(i32, i32), i32>::empty(),
    {
        Self::new()
    }
}

impl Default for SpawnedChunks {
    /// No chunk generated yet.
    fn default() -> (set: Self)
        ensures
            set@ == Set::<(i32, i32)>::empty(),
    {
        Self::new()
    }
}

/// What a registration writes, a lookup reads back: once `name` is
/// registered under `id`, looking it up gives `id`, and every other name
/// still gives what it gave before (its own id, or the fallback).
pub proof fn law_lookup_after_register(
    before: Map<Seq<char>, u16>,
    name: Seq<char>,
    id: u16,
    fallback: u16,
)
    ensures
        lookup_or(before.insert(name, id), name, fallback) == id,
        forall|other: Seq<char>|
            other != name ==> #[trigger] lookup_or(before.insert(name, id), other, fallback) == lookup_or(
                before,
                other,
                fallback,
            ),
{
}

/// In a block registry, a name looked up after registering it gives the id
/// the registration returned; other names keep their ids.
pub proof fn law_block_lookup_after_register<D>(
    before: BlockRegistry<D>,
    after: BlockRegistry<D>,
    name: Seq<char>,
    id: u16,
)
    requires
        after.names() == before.names().insert(name, id),
        after.air == before.air,
    ensures
        after.spec_get_or_air(name) == id,
        forall|other: Seq<char>|
            other != name ==> #[trigger] after.spec_get_or_air(other) == before.spec_get_or_air(other),
{
    law_lookup_after_register(before.names(), name, id, before.air);
}

/// In a biome registry, a name looked up after registering it gives the id
/// the registration returned; other names keep their ids.
pub proof fn law_biom_lookup_after_register<D>(
    before: BiomRegistry<D>,
    after: BiomRegistry<D>,
    name: Seq<char>,
    id: u16,
)
    requires
        after.names() == before.names().insert(name, id),
        after.plains == before.plains,
    ensures
        after.spec_get_or_plains(name) == id,
        forall|other: Seq<char>|
            other != name ==> #[trigger] after.spec_get_or_plains(other) == before.spec_get_or_plains(other),
{
    law_lookup_after_register(before.names(), name, id, before.plains);
}

/// A well-formed registry maps every registered name to the position of a
/// definition.
pub proof fn law_registered_ids_index_defs<D>(registry: BlockRegistry<D>, name: Seq<char>)
    requires
        registry.wf(),
        registry.names().contains_key(name),
    ensures
        (registry.spec_get_or_air(name) as nat) < registry.defs@.len(),
{
}

} // verus!
