[package]
name = "sysmedic"
version = "0.1.0"
edition = "2021"
publish = false

[dependencies]
humantime = "=2.4.0"
serde = { version = "=1.0.229", features = ["derive"] }
serde_json = "=1.0.154"
anyhow = "=1.0.104"
clap = { version = "=4.6.7", features = ["derive"] }
owo-colors = "=4.4.0"
libc = "=0.2.191"
ureq = { version = "=2.12.1", default-features = false }
serde_yaml_ng = "*"
tempfile = "3"
