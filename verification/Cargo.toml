[package]
name = "csv_to_db_bridge"
version = "0.1.0"
edition = "2021"
publish = false

[dependencies]
serde = { version = "=1.0.229", features = ["derive"] }
tauri = { version = "2", default-features = false }
tokio = { version = "=1.54.1", features = ["rt"] }
