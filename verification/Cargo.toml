[package]
name = "particle_life"
version = "0.1.0"
edition = "2021"
publish = false

[dependencies]
rand = "=0.8.8"
bevy = { version = "=0.7.0", default-features = false, features = ["render", "bevy_winit", "x11"] }
bevy_prototype_lyon = "=0.5.0"
darling = "=0.13.4"
