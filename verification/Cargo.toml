[package]
name = "humanboard"
version = "0.1.0"
edition = "2021"
publish = false

[dependencies]
rstar = "*"
serde = { version = "1", features = ["derive"] }
serde_json = "1"
image = "*"
tiny_http = "*"
