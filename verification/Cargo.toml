[package]
name = "nimi"
version = "0.1.0"
edition = "2021"
publish = false

[dependencies]
clap = { version = "4", features = ["derive"] }
color-eyre = "0.6"
env_logger = "0.11"
eyre = "0.6"
format_serde_error = "0.3"
libc = "0.2"
log = "0.4"
nix = { version = "0.29", features = ["process", "signal"] }
serde = { version = "1", features = ["derive"] }
serde_json = "1"
serde_with = "3"
sha2 = "0.10"
thiserror = "2"
tokio = { version = "1", features = ["fs", "io-util", "macros", "process", "rt-multi-thread", "signal", "sync", "time"] }
tokio-util = "0.7"
