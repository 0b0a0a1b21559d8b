[package]
name = "voxel_world"
version = "0.1.0"
edition = "2021"
publish = false

[dependencies]
bevy = { version = "=0.17.3", default-features = false, features = ["std", "multi_threaded", "bevy_asset", "bevy_state", "bevy_log", "bevy_window", "bevy_core_pipeline", "bevy_render", "bevy_pbr", "bevy_ui", "bevy_text", "bevy_sprite", "bevy_picking", "png"] }
noisy_bevy = "=0.11.0"
image = { version = "=0.25.10", default-features = false, features = ["png"] }
ron = "=0.11.0"
serde = { version = "=1.0.229", features = ["derive"] }
