[package]
name = "template_registry"
version = "0.1.0"
edition = "2021"
publish = false

[dependencies]
rhai = { version = "1", features = ["sync", "serde"] }
serde = { version = "1", features = ["derive"] }
serde_json = "1"
walkdir = "2"
rust-embed = "8"
derive_builder = "0.20"
