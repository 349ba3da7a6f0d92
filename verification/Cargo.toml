[package]
name = "plant_simulation"
version = "0.1.0"
edition = "2021"
publish = false

[dependencies]
tritet = { version = "=3.4.0", features = ["with_tetgen"] }
cgmath = "=0.18.0"
serde = { version = "=1.0.229", features = ["derive"] }
ron = "=0.12.2"
notify = "=8.2.0"
bevy = { version = "=0.16.1", default-features = false, features = ["std", "bevy_asset", "bevy_color", "bevy_core_pipeline", "bevy_pbr", "bevy_render", "bevy_window", "bevy_picking", "bevy_mesh_picking_backend"] }
bevy_panorbit_camera = { version = "=0.26.0", default-features = false }
