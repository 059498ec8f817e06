[package]
name = "litekv"
version = "0.1.0"
edition = "2021"
publish = false

[dependencies]
actix-web = { version = "4", default-features = false, features = ["macros"] }
anyhow = "1"
argh = "*"
chrono = { version = "0.4", features = ["serde"] }
env_logger = "*"
rusqlite = { version = "*", features = ["chrono", "serde_json"] }
serde = { version = "1", features = ["derive"] }
serde_json = { version = "1", features = ["float_roundtrip"] }
thiserror = "*"
