[package]
name = "scene_core"
version = "0.1.0"
edition = "2021"
publish = false

[dependencies]
mlua = { version = "0.10", features = ["lua54", "vendored"] }
macroquad = "0.4"
futures = "0.3"
once_cell = "1"
