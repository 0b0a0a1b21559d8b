use voxel_world::config::HeightMap;
use voxel_world::world::spawn_point_for;

#[test]
fn spawn_above_the_generated_surface() {
    let mut heights = HeightMap::new();
    heights.insert(8, 8, 12);
    heights.insert(9, 8, 100);
    let s = spawn_point_for(&heights);
    assert_eq!((s.x, s.y, s.z), (8, 17, 8));
}

#[test]
fn spawn_defaults_when_the_column_is_missing() {
    let heights = HeightMap::new();
    let s = spawn_point_for(&heights);
    assert_eq!((s.x, s.y, s.z), (8, 10, 8));
}
