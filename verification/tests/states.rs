use voxel_world::config::{SpawnChunkGenerated, WorldReady};
use voxel_world::states::{loading_update, AssetLoadState, GameState, LoadingAssets};

#[test]
fn game_starts_loading_assets() {
    assert_eq!(GameState::default(), GameState::AppLoading);
}

#[test]
fn world_becomes_ready_once_the_spawn_chunk_exists() {
    let mut ready = WorldReady(false);
    assert_eq!(loading_update(&mut ready, &SpawnChunkGenerated(false)), None);
    assert!(!ready.0);
    assert_eq!(loading_update(&mut ready, &SpawnChunkGenerated(true)), Some(GameState::InGame));
    assert!(ready.0);
    assert_eq!(loading_update(&mut ready, &SpawnChunkGenerated(true)), None);
    assert!(ready.0);
}

#[test]
fn loading_report_counts_and_names_failures() {
    let mut assets = LoadingAssets::new();
    assets.add("font".to_string(), 1u32);
    assets.add("sky".to_string(), 2u32);
    assets.add("music".to_string(), 3u32);
    let r = assets.report(&vec![AssetLoadState::Loaded, AssetLoadState::Failed, AssetLoadState::Pending]);
    assert_eq!(r.loaded, 1);
    assert_eq!(r.total, 3);
    assert_eq!(r.failed, vec!["sky".to_string()]);
    assert_eq!(r.next, None);
}

#[test]
fn loading_moves_to_menu_when_everything_is_loaded() {
    let mut assets = LoadingAssets::new();
    assets.add("font".to_string(), ());
    let r = assets.report(&vec![AssetLoadState::Loaded]);
    assert_eq!((r.loaded, r.total), (1, 1));
    assert!(r.failed.is_empty());
    assert_eq!(r.next, Some(GameState::MainMenu));
}

#[test]
fn nothing_to_load_goes_straight_to_menu() {
    let assets: LoadingAssets<()> = LoadingAssets::new();
    let r = assets.report(&vec![]);
    assert_eq!(r.next, Some(GameState::MainMenu));
}

#[test]
fn failures_keep_the_game_loading() {
    let mut assets = LoadingAssets::new();
    assets.add("a".to_string(), 0u8);
    assets.add("b".to_string(), 0u8);
    let r = assets.report(&vec![AssetLoadState::Failed, AssetLoadState::Failed]);
    assert_eq!(r.failed, vec!["a".to_string(), "b".to_string()]);
    assert_eq!(r.loaded, 0);
    assert_eq!(r.next, None);
}
