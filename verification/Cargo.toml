[package]
name = "registry"
version = "0.1.0"
edition = "2021"
publish = false

[dependencies]
atty = "0.2"
clap = { version = "3.2", features = ["derive"] }
crossterm = "0.26"
schemars = "0.8"
serde = { version = "1.0", features = ["derive"] }
serde_json = "1.0"
