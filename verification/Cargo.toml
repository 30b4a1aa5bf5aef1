[package]
name = "anim_state_machine"
version = "0.1.0"
edition = "2021"
publish = false

[dependencies]
evalexpr = "=8.2.0"
regex = "=1.13.1"
serde = { version = "=1.0.229", features = ["derive"] }
serde_json = "=1.0.154"
ron = "=0.8.1"
anyhow = "=1.0.104"
bevy = { version = "0.8", default-features = false, features = ["bevy_asset", "bevy_winit", "render", "png", "jpeg", "x11", "filesystem_watcher"] }
bevy_asset_loader = "0.12"
bevy_ecs_tilemap = "0.7"
bevy_embedded_assets = "0.4"
bevy_rapier2d = "0.16"
smooth-bevy-cameras = "0.5"
tiled = "0.10"
