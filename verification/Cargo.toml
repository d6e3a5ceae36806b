[package]
name = "learnme"
version = "0.1.0"
edition = "2021"
publish = false

[dependencies]
serde = { version = "1", features = ["derive"] }
serde_json = "1"
sha2 = "0.10"
uuid = { version = "1", features = ["v7"] }
chrono = "0.4"
rusqlite = { version = "*", features = ["bundled"] }
rs-fsrs = "*"
jsonschema = { version = "0.18", default-features = false }
thiserror = "1"
