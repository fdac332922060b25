[package]
name = "mapmap_ui"
version = "0.1.0"
edition = "2021"
publish = false

[dependencies]
egui = "=0.34.3"
egui_node_editor = "=0.10.0"
serde = { version = "=1.0.229", features = ["derive"] }
serde_json = "=1.0.154"
image = { version = "=0.25.10", default-features = false, features = ["png", "jpeg"] }
resvg = "=0.45.1"
