//! The hash collections of the engine, seen through their contents.

use bevy::platform::collections::{HashMap, HashSet};
use bevy::platform::hash::FixedHasher;
use vstd::prelude::*;

verus! {

#[verifier::external_type_specification]
#[verifier::external_body]
pub struct ExFixedHasher(FixedHasher);

#[verifier::external_type_specification]
#[verifier::external_body]
#[verifier::reject_recursive_types(K)]
#[verifier::reject_recursive_types(V)]
#[verifier::reject_recursive_types(S)]
pub struct ExHashMap<K, V, S>(HashMap<K, V, S>);

#[verifier::external_type_specification]
#[verifier::external_body]
#[verifier::reject_recursive_types(T)]
#[verifier::reject_recursive_types(S)]
pub struct ExHashSet<T, S>(HashSet<T, S>);

/// The entries of a table from names to ids.
pub uninterp spec fn name_entries(m: HashMap<String, u16>) -> Map<Seq<char>, u16>;

/// `HashMap::new` on a table from names to ids: the table is empty.
#[verifier::external_body]
pub(crate) fn name_table_new() -> (table: HashMap<String, u16>)
    ensures
        name_entries(table) =~= Map::empty(),
{
    HashMap::new()
}

/// `HashMap::get` on a table from names to ids: the id stored under the name, if any.
#[verifier::external_body]
pub(crate) fn name_table_get(m: &HashMap<String, u16>, name: &str) -> (r: Option<u16>)
    ensures
        r == (if name_entries(*m).contains_key(name@) {
            Some(name_entries(*m)[name@])
        } else {
            None::<u16>
        }),
{
    m.get(name).copied()
}

/// `HashMap::insert` on a table from names to ids: the name now maps to the id,
/// every other entry is kept.
#[verifier::external_body]
pub(crate) fn name_table_insert(m: &mut HashMap<String, u16>, name: String, id: u16)
    ensures
        name_entries(*final(m)) == name_entries(*old(m)).insert(name@, id),
{
    m.insert(name, id);
}

} // verus!

verus! {

/// The entries of a table from block columns `(x, z)` to surface heights.
pub uninterp spec fn height_entries(m: HashMap<(i32, i32), i32>) -> Map<(i32, i32), i32>;

/// `HashMap::new` on a table of surface heights: the table is empty.
#[verifier::external_body]
pub(crate) fn height_table_new() -> (table: HashMap<(i32, i32), i32>)
    ensures
        height_entries(table) =~= Map::empty(),
{
    HashMap::new()
}

/// `HashMap::get` on a table of surface heights: the height stored for the column, if any.
#[verifier::external_body]
pub(crate) fn height_table_get(m: &HashMap<(i32, i32), i32>, column: (i32, i32)) -> (r: Option<i32>)
    ensures
        r == (if height_entries(*m).contains_key(column) {
            Some(height_entries(*m)[column])
        } else {
            None::<i32>
        }),
{
    m.get(&column).copied()
}

/// `HashMap::insert` on a table of surface heights: the column now maps to the
/// height, every other entry is kept.
#[verifier::external_body]
pub(crate) fn height_table_insert(m: &mut HashMap<(i32, i32), i32>, column: (i32, i32), height: i32)
    ensures
        height_entries(*final(m)) == height_entries(*old(m)).insert(column, height),
{
    m.insert(column, height);
}

/// The members of a set of chunk positions `(x, z)`.
pub uninterp spec fn chunk_entries(s: HashSet<(i32, i32)>) -> Set<(i32, i32)>;

/// `HashSet::new` on chunk positions: the set is empty.
#[verifier::external_body]
pub(crate) fn chunk_set_new() -> (set: HashSet<(i32, i32)>)
    ensures
        chunk_entries(set) =~= Set::empty(),
{
    HashSet::new()
}

/// `HashSet::insert` on chunk positions: the position is a member afterwards,
/// nothing else changes, and the result says whether it was absent before.
#[verifier::external_body]
pub(crate) fn chunk_set_insert(s: &mut HashSet<(i32, i32)>, chunk: (i32, i32)) -> (added: bool)
    ensures
        chunk_entries(*final(s)) == chunk_entries(*old(s)).insert(chunk),
        added == !chunk_entries(*old(s)).contains(chunk),
{
    s.insert(chunk)
}

/// `HashSet::contains` on chunk positions.
#[verifier::external_body]
pub(crate) fn chunk_set_contains(s: &HashSet<(i32, i32)>, chunk: (i32, i32)) -> (found: bool)
    ensures
        found == chunk_entries(*s).contains(chunk),
{
    s.contains(&chunk)
}

} // verus!
