[package]
name = "scene_frames"
version = "0.1.0"
edition = "2021"
publish = false

[dependencies]
clap = { version = "4", features = ["derive"] }
json = "0.12"
plotpy = "*"
