[package]
name = "filewatch"
version = "0.1.0"
edition = "2021"
publish = false

[dependencies]
arc-swap = "*"
notify = "*"
notify-debouncer-mini = "*"
serde = { version = "*", features = ["derive"] }
serde_json = "*"
tokio = { version = "*", features = ["rt"] }
