[package]
name = "rbx_reflection"
version = "0.1.0"
edition = "2021"
publish = false

[dependencies]
bitflags = "1"
rbx_types = { version = "1", features = ["serde"] }
serde = { version = "1", features = ["derive"] }
