[package]
name = "path_require"
version = "0.1.0"
edition = "2021"
publish = false

[dependencies]
pathdiff = "*"
serde = { version = "*", features = ["derive"] }
serde_json = "*"
