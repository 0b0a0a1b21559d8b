//! Biomes: the blocks a biome is built from.

use crate::config::BlockRegistry;
use vstd::prelude::*;

verus! {

/// A biome, by its id in the biome registry.
#[derive(Clone, Copy, Debug, PartialEq, Eq, Structural)]
pub struct Biom {
    pub id: u16,
}

/// The block ids a biome is made of.
#[derive(Clone, Copy, Debug, PartialEq, Eq, Structural)]
pub struct BiomBlocks {
    pub surface: u16,
    pub underground: u16,
    pub underwater: u16,
}

impl BiomBlocks {
    /// The ids of the named blocks of a biome; a name that no block has gives air.
    pub fn resolve<D>(registry: &BlockRegistry<D>, surface: &str, underground: &str, underwater: &str) -> (blocks: Self)
        ensures
            blocks.surface == registry.spec_get_or_air(surface@),
            blocks.underground == registry.spec_get_or_air(underground@),
            blocks.underwater == registry.spec_get_or_air(underwater@),
    {
        BiomBlocks {
            surface: registry.get_or_air(surface),
            underground: registry.get_or_air(underground),
            underwater: registry.get_or_air(underwater),
        }
    }
}

} // verus!
