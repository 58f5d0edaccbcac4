[package]
name = "heron"
version = "0.1.0"
edition = "2021"
publish = false

[dependencies]
bevy = { version = "0.6", default-features = false }
bevy_core = "0.6"
bevy_utils = "0.6"
rapier3d = "0.11"
crossbeam = "0.8"
fnv = "1.0"
