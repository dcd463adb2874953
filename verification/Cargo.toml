[package]
name = "boxmux"
version = "0.1.0"
edition = "2021"
publish = false

[dependencies]
uuid = { version = "=1.29.1", features = ["v4"] }
serde = { version = "=1.0.229", features = ["derive"] }
serde_json = "=1.0.154"
toml = "=1.2.1"
log = "=0.4.35"
serde_yaml = "=0.9.34"
termion = "=4.0.6"
portable-pty = "*"
