[package]
name = "ironbar"
version = "0.1.0"
edition = "2021"
publish = false

[dependencies]
color-eyre = "=0.6.5"
glib = "=0.22.10"
gtk4 = "=0.11.5"
schemars = "1"
serde = { version = "=1.0.229", features = ["derive"] }
tokio = { version = "=1.54.1", features = ["rt", "sync", "time"] }
