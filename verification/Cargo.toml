[package]
name = "ghost_browser"
version = "0.1.0"
edition = "2021"
publish = false

[dependencies]
url = "2"
serde = { version = "1", features = ["derive"] }
serde_json = "1"
tauri = { version = "2", default-features = false, features = ["wry", "unstable", "x11", "dynamic-acl", "common-controls-v6"] }
gtk = "0.18"
gdk = "0.18"
