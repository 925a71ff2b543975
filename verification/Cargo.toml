[package]
name = "sorkin"
version = "0.1.0"
edition = "2021"
publish = false

[dependencies]
ffmpeg-next = "7"
godot = "0.1"
