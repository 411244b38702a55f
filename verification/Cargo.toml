[package]
name = "xtreme"
version = "0.1.0"
edition = "2021"
publish = false

[dependencies]
serde = { version = "1", features = ["derive"] }
serde_json = "1"
ron = "0.8"
log = "0.4"
glam = { version = "0.29", features = ["serde"] }
egui = "0.29"
