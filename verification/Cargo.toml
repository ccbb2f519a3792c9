[package]
name = "spooky_pranks"
version = "0.1.0"
edition = "2021"
publish = false

[dependencies]
bevy = { version = "0.14", default-features = false, features = ["bevy_color", "bevy_state"] }
rand = "0.8"
serde = { version = "1", features = ["derive"] }
serde_json = "1"
