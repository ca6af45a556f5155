[package]
name = "edpdgen"
version = "0.1.0"
edition = "2021"
publish = false

[dependencies]
tera = { version = "1", default-features = false }
chrono = "0.4"
clap = "2"
colored = "*"
csv = "1"
rusqlite = { version = "*", features = ["bundled"] }
serde = { version = "1", features = ["derive"] }
serde_json = "1"
