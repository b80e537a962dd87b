[package]
name = "winter_card"
version = "0.1.0"
edition = "2021"
publish = false

[dependencies]
chrono = "*"
r2d2 = "*"
r2d2_sqlite = "*"
rusqlite = { version = "*", features = ["bundled"] }
serde = { version = "*", features = ["derive"] }
serde_json = "*"
