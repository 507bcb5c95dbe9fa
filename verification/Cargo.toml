[package]
name = "guarderd"
version = "0.1.0"
edition = "2021"
publish = false

[dependencies]
anyhow = "1"
chrono = "0.4"
clap = { version = "4", features = ["derive"] }
ctrlc = { version = "3", features = ["termination"] }
fs2 = "0.4"
nix = { version = "*", features = ["fs", "process", "signal"] }
