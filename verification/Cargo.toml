[package]
name = "aeromessage"
version = "0.1.0"
edition = "2021"
publish = false

[dependencies]
rusqlite = { version = "*", features = ["bundled"] }
dirs = "*"
chrono = "*"
serde = { version = "*", features = ["derive"] }
thiserror = "*"
