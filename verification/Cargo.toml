[package]
name = "browser_selector"
version = "0.1.0"
edition = "2021"
publish = false

[dependencies]
url = "2"
chrono = "0.4"
rusqlite = { version = "*", features = ["bundled"] }
