[package]
name = "sentinel_core"
version = "0.1.0"
edition = "2021"
publish = false

[dependencies]
rand = "0.8"
serde = { version = "1.0", features = ["derive"] }
serde_json = "1.0"
serde_yaml = "0.9"
crossbeam = "0.8"
directories = "5"
reqwest = { version = "0.11", default-features = false, features = ["blocking"] }
