[package]
name = "runphi"
version = "0.1.0"
edition = "2021"
publish = false

[dependencies]
toml = "0.8"
regex = "1"
serde = { version = "1", features = ["derive"] }
serde_json = "1"
clap = { version = "4", features = ["derive"] }
liboci-cli = "*"
nix = { version = "*", features = ["signal", "process"] }
chrono = "0.4"
log = "0.4"
lazy_static = "1"
