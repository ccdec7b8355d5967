[package]
name = "hamhawk"
version = "0.1.0"
edition = "2021"
publish = false

[dependencies]
base64 = "0.22"
chrono = "0.4"
serde = { version = "1", features = ["derive"] }
serde_json = "1"
tokio = { version = "1", features = ["rt-multi-thread", "macros", "sync", "time", "net"] }
tokio-tungstenite = "0.24"
futures = "0.3"
rusqlite = { version = "0.32", features = ["bundled"] }
hound = "3.5"
rustfft = "6"
rubato = "0.16"
symphonia = { version = "0.5", features = ["mp3", "aac"] }
reqwest = { version = "0.12", default-features = false, features = ["blocking", "rustls-tls"] }
dirs-next = "2"
log = "0.4"
env_logger = "0.11"
thiserror = "1"
whisper-rs = "*"
