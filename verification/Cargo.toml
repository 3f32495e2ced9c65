[package]
name = "bevy_ecs_ldtk"
version = "0.10.0"
edition = "2021"
publish = false

[dependencies]
anyhow = "1"
path-clean = "1"
rand = "0.8"
regex = "1"
serde = { version = "1", features = ["derive"] }
serde_json = "1"
thiserror = "1"
