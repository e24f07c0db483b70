[package]
name = "catacombat"
version = "0.1.0"
edition = "2021"
publish = false

[dependencies]
bevy = { version = "=0.15.3", default-features = false, features = ["bevy_state"] }
bincode = "=1.3.3"
pathfinding = "=4.16.0"
rand = "=0.8.8"
renet = "=2.0.0"
serde = { version = "=1.0.229", features = ["derive"] }
serde_json = "1"
