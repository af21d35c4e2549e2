[package]
name = "bevy_gpu_insert"
version = "0.1.0"
edition = "2021"
publish = false

[dependencies]
bevy = { version = "0.8", default-features = false, features = ["bevy_asset", "bevy_render"] }
crossbeam-channel = "0.5"
