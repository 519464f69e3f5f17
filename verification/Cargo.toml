[package]
name = "satan_runner"
version = "0.1.0"
edition = "2021"
publish = false

[dependencies]
nix = { version = "=0.31.3", features = ["fs", "hostname"] }
globset = "=0.4.20"
ignore = "=0.4.33"
rusqlite = { version = "=0.40.2", features = ["bundled", "fallible_uint"] }
affinity = "=0.1.2"
clap = { version = "=4.6.7", features = ["derive"] }
serde = { version = "=1.0.229", features = ["derive"] }
serde_yaml = "=0.9.34"
serde_repr = "=0.1.21"
rayon = "=1.12.0"
wait-timeout = "=0.2.1"
parking_lot = "=0.12.5"
