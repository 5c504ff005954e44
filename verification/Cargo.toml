[package]
name = "rapi"
version = "0.1.0"
edition = "2021"
publish = false

[dependencies]
bincode = "1"
clap = { version = "4", features = ["derive"] }
log = "0.4"
nix = { version = "0.29", features = ["signal"] }
serde = { version = "1", features = ["derive"] }
simplelog = "0.12"
