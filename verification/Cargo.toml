[package]
name = "cinecam2d"
version = "0.1.0"
edition = "2021"
publish = false

[dependencies]
bevy = { version = "0.12", default-features = false }
noise = { version = "0.8", default-features = false, features = ["std"] }
