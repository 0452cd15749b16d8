[package]
name = "locomotion"
version = "0.1.0"
edition = "2021"
publish = false

[dependencies]
bevy = { version = "=0.15.3", default-features = false, features = ["bevy_asset", "bevy_scene", "bevy_pbr", "bevy_render", "bevy_core_pipeline", "bevy_window", "multi_threaded"] }
avian3d = { version = "=0.2.1", default-features = false, features = ["3d", "f32", "parry-f32", "collider-from-mesh", "bevy_scene"] }
