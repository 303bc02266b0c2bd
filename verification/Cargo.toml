[package]
name = "surge_stream"
version = "0.1.0"
edition = "2021"
publish = false

[dependencies]
serde = { version = "=1.0.229", features = ["derive"] }
serde-pickle = "=1.2.0"
toml = "=1.2.1"
gpkg = "=0.1.0"
rusqlite = "=0.27.0"
tokio = { version = "=1.54.1", features = ["macros", "rt-multi-thread"] }
