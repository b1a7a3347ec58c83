[package]
name = "appforge"
version = "0.1.0"
edition = "2021"
publish = false

[dependencies]
image = "*"
ico = "*"
icns = "*"
glob = "*"
walkdir = "*"
serde = { version = "1", features = ["derive"] }
serde_json = "1"
thiserror = "*"
uuid = { version = "1", features = ["v4"] }
log = "0.4"
