[package]
name = "carbide"
version = "0.1.0"
edition = "2021"
publish = false

[dependencies]
sha2 = "=0.10.9"
hex = "=0.4.3"
serde = { version = "=1.0.229", features = ["derive"] }
serde_json = "=1.0.154"
serde_yaml = "=0.9.34"
ipnetwork = "=0.20.0"
thiserror = "=2.0.21"
prettytable-rs = "=0.10.0"
prometheus = { version = "0.13", default-features = false }
