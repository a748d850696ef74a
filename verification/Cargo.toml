[package]
name = "bevy_asset_preview"
version = "0.1.0"
edition = "2021"
publish = false

[dependencies]
bevy = { version = "0.15", default-features = false, features = ["bevy_asset", "bevy_scene", "bevy_render", "bevy_core_pipeline", "bevy_pbr"] }
