[package]
name = "skirmish"
version = "0.1.0"
edition = "2021"
publish = false

[dependencies]
bevy = { version = "0.11", default-features = false }
bevy_rapier2d = { version = "0.22", default-features = false, features = ["dim2"] }
lazy_static = "1.4"
