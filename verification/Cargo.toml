[package]
name = "uwu"
version = "0.1.0"
edition = "2021"
publish = false

[dependencies]
bitcode = { version = "=0.6.9", features = ["derive"] }
serde = { version = "=1.0.229", features = ["derive"] }
serde_json = "=1.0.154"
dirs = "=7.0.0"
libloading = "=0.9.0"
interprocess = "2"
