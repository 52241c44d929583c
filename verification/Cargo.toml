[package]
name = "asset_version_control"
version = "0.1.0"
edition = "2021"
publish = false

[dependencies]
rusqlite = { version = "*", features = ["bundled"] }
chrono = "*"
notify-debouncer-mini = "*"
whoami = "*"
serde = { version = "*", features = ["derive"] }
