[package]
name = "secretfs"
version = "0.1.0"
edition = "2021"
publish = false

[dependencies]
anyhow = "*"
clap = { version = "*", features = ["derive"] }
fuser = "*"
humantime-serde = "*"
libc = "*"
serde = { version = "*", features = ["derive"] }
serde_json = "*"
time = { version = "*", features = ["parsing", "formatting", "serde", "serde-well-known"] }
toml = "*"
tracing = "*"
tracing-subscriber = "*"
