use voxel_world::config::{BiomRegistry, BlockRegistry};
use voxel_world::world::bioms::BiomBlocks;

fn blocks() -> BlockRegistry<&'static str> {
    let mut r = BlockRegistry::new();
    for name in ["stone", "air", "dirt", "grass"] {
        r.register(name.to_string(), name);
    }
    r
}

#[test]
fn new_block_registry_is_empty() {
    let r: BlockRegistry<u8> = BlockRegistry::new();
    assert_eq!(r.defs.len(), 0);
    assert_eq!(r.air, 0);
    assert_eq!(r.get_or_air("stone"), 0);
}

#[test]
fn register_returns_positions() {
    let mut r = BlockRegistry::new();
    assert_eq!(r.register("stone".to_string(), 10u8), 0);
    assert_eq!(r.register("dirt".to_string(), 20u8), 1);
    assert_eq!(r.defs, vec![10u8, 20u8]);
}

#[test]
fn lookup_after_register() {
    let r = blocks();
    assert_eq!(r.get_or_air("stone"), 0);
    assert_eq!(r.get_or_air("air"), 1);
    assert_eq!(r.get_or_air("dirt"), 2);
    assert_eq!(r.get_or_air("grass"), 3);
}

#[test]
fn unknown_block_is_air() {
    let mut r = blocks();
    assert_eq!(r.get_or_air("lava"), 0);
    r.resolve_air();
    assert_eq!(r.air, 1);
    assert_eq!(r.get_or_air("lava"), 1);
    assert_eq!(r.get_or_air("stone"), 0);
}

#[test]
fn resolve_air_without_air_keeps_default() {
    let mut r = BlockRegistry::new();
    r.register("stone".to_string(), ());
    r.air = 7;
    r.resolve_air();
    assert_eq!(r.air, 7);
}

#[test]
fn later_registration_takes_the_name() {
    let mut r = blocks();
    let id = r.register("dirt".to_string(), "dirt again");
    assert_eq!(id, 4);
    assert_eq!(r.get_or_air("dirt"), 4);
    assert_eq!(r.defs.len(), 5);
    assert_eq!(r.get_or_air("grass"), 3);
}

#[test]
fn biom_registry_falls_back_to_plains() {
    let mut r = BiomRegistry::new();
    r.register("desert".to_string(), 'd');
    r.register("plains".to_string(), 'p');
    r.register("tundra".to_string(), 't');
    assert_eq!(r.get_or_plains("jungle"), 0);
    r.resolve_plains();
    assert_eq!(r.plains, 1);
    assert_eq!(r.get_or_plains("jungle"), 1);
    assert_eq!(r.get_or_plains("tundra"), 2);
    assert_eq!(r.get_or_plains("desert"), 0);
}

#[test]
fn biom_blocks_resolve_names() {
    let mut r = blocks();
    r.resolve_air();
    let b = BiomBlocks::resolve(&r, "grass", "dirt", "water");
    assert_eq!(b.surface, 3);
    assert_eq!(b.underground, 2);
    assert_eq!(b.underwater, 1);
}

#[test]
fn block_registry_from_entries() {
    let entries = vec![
        ("stone".to_string(), 'a'),
        ("air".to_string(), 'b'),
        ("dirt".to_string(), 'c'),
        ("stone".to_string(), 'd'),
    ];
    let r = BlockRegistry::from_entries(entries);
    assert_eq!(r.defs, vec!['a', 'b', 'c', 'd']);
    assert_eq!(r.air, 1);
    assert_eq!(r.get_or_air("stone"), 3);
    assert_eq!(r.get_or_air("dirt"), 2);
    assert_eq!(r.get_or_air("lava"), 1);
}

#[test]
fn block_registry_from_entries_without_air() {
    let r = BlockRegistry::from_entries(vec![("stone".to_string(), ()), ("dirt".to_string(), ())]);
    assert_eq!(r.air, 0);
    assert_eq!(r.get_or_air("dirt"), 1);
    assert_eq!(r.get_or_air("lava"), 0);
    let empty: BlockRegistry<()> = BlockRegistry::from_entries(vec![]);
    assert!(empty.defs.is_empty());
    assert_eq!(empty.get_or_air("air"), 0);
}

#[test]
fn biom_registry_from_entries() {
    let r = BiomRegistry::from_entries(vec![
        ("desert".to_string(), 1u8),
        ("plains".to_string(), 2u8),
        ("desert".to_string(), 3u8),
    ]);
    assert_eq!(r.defs, vec![1u8, 2u8, 3u8]);
    assert_eq!(r.plains, 1);
    assert_eq!(r.get_or_plains("desert"), 2);
    assert_eq!(r.get_or_plains("jungle"), 1);
}
