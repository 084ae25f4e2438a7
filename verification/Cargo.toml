[package]
name = "dafm"
version = "0.1.0"
edition = "2021"
publish = false

[dependencies]
smallvec = "1"
rand = "0.9"
tiled = { version = "0.14", default-features = false }
bevy = { version = "0.16", default-features = false, features = ["bevy_state", "bevy_text", "bevy_ui", "bevy_sprite", "bevy_render", "bevy_core_pipeline", "bevy_asset", "bevy_window", "bevy_log"] }
bevy_ecs_tilemap = "0.16"
