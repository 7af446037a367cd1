[package]
name = "dungeon_crawler"
version = "0.1.0"
edition = "2021"
publish = false

[dependencies]
rand = "=0.8.8"
uuid = { version = "=1.29.0", features = ["v4"] }
serde = "=1.0.229"
serde_derive = "=1.0.229"
serde_json = "=1.0.154"
gltf = { version = "=1.4.1", features = ["KHR_lights_punctual", "extras"] }
cgmath = "=0.18.0"
image = { version = "=0.25.10", default-features = false, features = ["png", "jpeg"] }
