[package]
name = "tiny_player"
version = "0.1.0"
edition = "2021"
publish = false

[dependencies]
time = { version = "0.3", features = ["formatting", "parsing", "local-offset"] }
reqwest = { version = "0.12", default-features = false }
reqwest-websocket = "0.5"
serde = { version = "1", features = ["derive"] }
serde_json = "1"
tokio = { version = "1", features = ["full"] }
futures-util = { version = "0.3", features = ["sink"] }
log = "0.4"
tracing = "0.1"
tracing-subscriber = { version = "0.3", features = ["local-time"] }
bytemuck = "1"
rustfft = "6"
derive_builder = "0.20"
image = { version = "0.25", default-features = false, features = ["png", "jpeg"] }
egui = "*"
egui_extras = { version = "*", default-features = false }
egui_file = "*"
ffmpeg-the-third = "3"
rodio = "0.21"
