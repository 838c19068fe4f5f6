[package]
name = "flappy_sim"
version = "0.1.0"
edition = "2021"
publish = false

[dependencies]
bevy = { version = "=0.17.3", default-features = false, features = ["std", "multi_threaded", "bevy_asset", "bevy_color", "bevy_log", "bevy_window", "bevy_winit", "x11", "bevy_render", "bevy_core_pipeline", "bevy_camera", "bevy_mesh", "bevy_sprite", "bevy_sprite_render"] }
