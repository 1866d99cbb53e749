[package]
name = "rainbow_rogue"
version = "0.1.0"
edition = "2021"
publish = false

[dependencies]
bracket-geometry = "0.8"
bracket-pathfinding = "0.8"
bracket-random = "0.8"
bracket-terminal = "0.8"
chrono = "0.4"
serde = { version = "1", features = ["derive"] }
serde_json = "1"
smallvec = "1"
