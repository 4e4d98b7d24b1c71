[package]
name = "viewdeb"
version = "0.1.0"
edition = "2021"
publish = false

[dependencies]
serde = { version = "1", features = ["derive"] }
walkdir = "2"
tauri = { version = "2", default-features = false }
