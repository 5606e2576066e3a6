[package]
name = "dictyy"
version = "0.1.0"
edition = "2021"
publish = false

[dependencies]
strsim = "=0.11.1"
serde_json = "=1.0.154"
urlencoding = "=2.1.3"
serde = { version = "=1.0.229", features = ["derive"] }
rusqlite = { version = "=0.41.0", features = ["bundled"] }
chrono = "=0.4.45"
dirs = "=7.0.0"
serde_yaml = "=0.9.34"
reqwest = { version = "=0.12.28", features = ["json"] }
