[package]
name = "popfs"
version = "0.1.0"
edition = "2021"
publish = false

[dependencies]
chrono = { version = "0.4", default-features = false, features = ["now"] }
urlencoding = "2"
tauri-plugin-deep-link = "0.1"
