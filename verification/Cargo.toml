[package]
name = "audio_recorder"
version = "0.1.0"
edition = "2021"
publish = false

[dependencies]
byteorder = "1"
cpal = "0.15"
serde = { version = "1", features = ["derive"] }
