[package]
name = "openloom"
version = "0.1.0"
edition = "2021"
publish = false

[dependencies]
base64 = "0.22"
chrono = "0.4"
dirs = "6"
notify = "8"
notify-debouncer-mini = "0.7"
portable-pty = "0.8"
reqwest = { version = "0.12", features = ["json"] }
serde = { version = "1", features = ["derive"] }
serde_json = "1"
whoami = "1"
