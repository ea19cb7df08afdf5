[package]
name = "raster_ui"
version = "0.1.0"
edition = "2021"
publish = false

[dependencies]
egui = "0.29"
serde = { version = "1", features = ["derive"] }
serde_json = "1"
