[package]
name = "yarl"
version = "0.1.0"
edition = "2021"
publish = false

[dependencies]
chrono = { version = "0.4", features = ["serde"] }
clap = { version = "4", features = ["derive"] }
log = "0.4"
native_db = "0.7"
native_model = "0.4"
ron = "0.8"
serde = { version = "1", features = ["derive"] }
