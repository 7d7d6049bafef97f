[package]
name = "waketimed"
version = "0.1.0"
edition = "2021"
publish = false

[dependencies]
anyhow = "1"
async-trait = "0.1"
chrono = "0.4"
env_logger = "0.10"
futures-util = "0.3"
log = "0.4"
nix = { version = "0.29", features = ["time"] }
rhai = "1"
serde = { version = "1", features = ["derive"] }
serde_yaml = "0.9"
signal-hook = "0.3"
thiserror = "1"
tokio = { version = "1", features = ["rt", "rt-multi-thread", "sync", "time"] }
zbus = { version = "3", default-features = false, features = ["tokio"] }
zvariant = "3"
