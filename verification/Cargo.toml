[package]
name = "episode_transcribe"
version = "0.1.0"
edition = "2021"
publish = false

[dependencies]
anyhow = "1"
chrono = "0.4"
clap = { version = "4", features = ["derive"] }
dialoguer = "*"
directories = "*"
hound = "3"
rodio = "*"
rusqlite = "*"
serde = { version = "1", features = ["derive"] }
serde_json = "1"
sherpa-onnx = "*"
walkdir = "2"
whisper-rs = "*"
