[package]
name = "test_stand"
version = "0.1.0"
edition = "2021"
publish = false

[dependencies]
serde = { version = "1", features = ["derive"] }
toml = "*"
serialport = { version = "4", default-features = false }

[dev-dependencies]
cobs = "*"
