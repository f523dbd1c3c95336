[package]
name = "trinity_mapper"
version = "0.1.0"
edition = "2021"
publish = false

[dependencies]
serde = { version = "1", features = ["derive"] }
serde_json = "1"
toml = "0.8"
dirs = "*"
evdev = "0.13"
nix = { version = "0.29", features = ["poll"] }
