[package]
name = "skillranker"
version = "0.1.0"
edition = "2021"
publish = false

[dependencies]
blake3 = "1"
clap = "4"
directories = "*"
nix = { version = "0.30", features = ["fs"] }
serde = { version = "1", features = ["derive"] }
serde_json = "1"
toml = "0.8"
