[package]
name = "hackc_core"
version = "0.1.0"
edition = "2021"
publish = false

[dependencies]
bitflags = "1"
serde = { version = "1", features = ["derive"] }
