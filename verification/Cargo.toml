[package]
name = "clockprobe"
version = "0.1.0"
edition = "2021"
publish = false

[dependencies]
clap = { version = "=4.6.7", features = ["derive"] }
libc = "=0.2.191"
rand = "=0.8.8"

[dev-dependencies]
serde_json = "=1.0.154"
