[package]
name = "deskshell"
version = "0.1.0"
edition = "2021"
publish = false

[dependencies]
image = "*"
svg = "*"
freedesktop_entry_parser = "*"
tokio = { version = "*", features = ["full"] }
tokio-stream = "*"
notify = "*"
serde_json = "*"
shellexpand = "*"
walkdir = "*"
zbus = "*"
chrono = "*"
bluer = { version = "*", features = ["bluetoothd"] }
libpulse-binding = "*"
