use voxel_world::config::Seed;
use voxel_world::world::seeding::{derive_seed, noise_seeds, seed_components};

#[test]
fn derive_seed_of_zero_is_zero() {
    assert_eq!(derive_seed(0, 0), 0);
}

#[test]
fn derive_seed_matches_splitmix_first_output() {
    assert_eq!(derive_seed(0, 1), 0xe220a8397b1dcdaf);
}

#[test]
fn derive_seed_known_values() {
    assert_eq!(derive_seed(1234, 0), 0x182aae38cfccb83f);
    assert_eq!(derive_seed(1234, 1), 0xe7ebd26a69384c9a);
    assert_eq!(derive_seed(1234, 2), 0xbfffabf309b19927);
    assert_eq!(derive_seed(u64::MAX, 7), 0x8bde40ab87623c48);
}

#[test]
fn derive_seed_is_deterministic() {
    assert_eq!(derive_seed(987654321, 3), derive_seed(987654321, 3));
}

#[test]
fn seed_components_are_the_first_three_purposes() {
    assert_eq!(
        seed_components(1234),
        (0x182aae38cfccb83f, 0xe7ebd26a69384c9a, 0xbfffabf309b19927)
    );
}

#[test]
fn noise_seeds_follow_the_world_seed() {
    let s = noise_seeds(&Seed(1234));
    assert_eq!(s.temperature, 1234);
    assert_eq!(s.wetness, 1235);
    assert_eq!(s.height, 1236);
    assert_eq!(s.continentalness, 1237);
    assert_eq!(s.erosion, 1238);
}

#[test]
fn noise_seeds_wrap_around() {
    let s = noise_seeds(&Seed(u64::MAX - 1));
    assert_eq!(s.temperature, u64::MAX - 1);
    assert_eq!(s.wetness, u64::MAX);
    assert_eq!(s.height, 0);
    assert_eq!(s.continentalness, 1);
    assert_eq!(s.erosion, 2);
}

#[test]
fn derive_seed_separates_bases_and_purposes() {
    let mut seen = std::collections::HashSet::new();
    for base in 0..64u64 {
        for index in 0..8u64 {
            assert!(seen.insert(derive_seed(base, index)));
        }
    }
}
