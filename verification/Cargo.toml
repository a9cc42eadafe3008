[package]
name = "crabbox"
version = "0.1.0"
edition = "2021"
publish = false

[dependencies]
anyhow = "1"
clap = { version = "4", features = ["derive"] }
nix = { version = "*", features = ["sched", "mount", "process", "fs", "hostname", "user", "signal"] }
serde = { version = "1", features = ["derive"] }
toml = "*"
