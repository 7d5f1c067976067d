[package]
name = "filip"
version = "0.1.0"
edition = "2021"
publish = false

[dependencies]
bincode = "=1.3.3"
concrete-commons = "=0.1.1"
concrete-csprng = "=0.1.7"
crossterm = "=0.20.0"
serde = { version = "1", features = ["derive"] }
