[package]
name = "clipboard_daemon"
version = "0.1.0"
edition = "2021"
publish = false

[dependencies]
arboard = "3"
chrono = "0.4"
device_query = "2"
image = { version = "0.25", default-features = false, features = ["png"] }
rand = "0.8"
rusqlite = { version = "0.31", features = ["bundled"] }
rusty-tesseract = "1"
serde = { version = "1", features = ["derive"] }
serde_json = "1"
sha2 = "0.10"
tiny_http = "0.12"
ureq = "2"
uuid = { version = "1", features = ["v4"] }
