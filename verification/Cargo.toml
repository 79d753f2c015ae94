[package]
name = "tapir"
version = "0.1.0"
edition = "2021"
publish = false

[dependencies]
libc = "0.2"
minreq = { version = "2", features = ["https"] }
serde = { version = "1", features = ["derive"] }
serde_json = "1"
