[package]
name = "extrinsics"
version = "0.1.0"
edition = "2021"
publish = false

[dependencies]
hex = "0.4"
serde = { version = "1", features = ["derive"] }

[dev-dependencies]
parity-scale-codec = "3"
