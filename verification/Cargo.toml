[package]
name = "kosync_light"
version = "0.1.0"
edition = "2021"
publish = false

[dependencies]
sha2 = "0.10"
serde = { version = "1", features = ["derive"] }
serde_json = "1"
tiny_http = "0.12"
lexopt = "0.3"
once_cell = "1"
