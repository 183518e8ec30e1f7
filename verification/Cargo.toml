[package]
name = "chipper8"
version = "0.1.0"
edition = "2021"
publish = false

[dependencies]
ux = "0.1"
serde = { version = "1", features = ["derive"] }
serde_json = "1"
clap = { version = "4", features = ["derive"] }
thiserror = "1"
