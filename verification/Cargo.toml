[package]
name = "voxel_hand"
version = "0.1.0"
edition = "2021"
publish = false

[dependencies]
futures-lite = "2"
rusqlite = "0.31"
serde = { version = "1", features = ["derive"] }
serde_json = "1"
