[package]
name = "engene"
version = "0.1.0"
edition = "2021"
publish = false

[dependencies]
pathfinding = "*"
glam = "*"
parking_lot = "*"
serde = { version = "*", features = ["derive"] }
tracing = "*"
