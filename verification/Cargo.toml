[package]
name = "lyre"
version = "0.1.0"
edition = "2021"
publish = false

[dependencies]
bytes = "1"
chrono = "0.4"
cpal = "0.15"
dirs = "5"
futures-util = "0.3"
hound = "3.5"
mp3-duration = "0.1"
mp3lame-encoder = "0.2"
reqwest = { version = "0.12", default-features = false, features = ["json", "stream", "rustls-tls"] }
screencapturekit = "1"
serde = { version = "1", features = ["derive"] }
serde_json = "1"
tokio = { version = "1", features = ["fs"] }
