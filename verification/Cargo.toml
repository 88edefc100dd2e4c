[package]
name = "pixel_punch"
version = "0.1.0"
edition = "2021"
publish = false

[dependencies]
bevy = { version = "0.11", default-features = false }
serde_yaml = "0.9"
