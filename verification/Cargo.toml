[package]
name = "fog_arena"
version = "0.1.0"
edition = "2021"
publish = false

[dependencies]
fastrand = "2"
macroquad = "0.4"
serde = { version = "1", features = ["derive"] }
serde_json = "1"
