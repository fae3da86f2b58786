[package]
name = "media_retention"
version = "0.1.0"
edition = "2021"
publish = false

[dependencies]
serde_json = "1"
chrono = "0.4"
serde = { version = "1", features = ["derive"] }
rusqlite = { version = "*", features = ["bundled"] }
reqwest = { version = "*", features = ["blocking"] }
