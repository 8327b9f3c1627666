[package]
name = "mac_changer"
version = "1.0.0"
edition = "2021"
publish = false

[dependencies]
chrono = { version = "=0.4.45", features = ["serde"] }
rand = "=0.8.8"
regex = "=1.13.1"
clap = { version = "=4.6.7", features = ["derive"] }
dirs = "=5.0.1"
is_elevated = "=0.1.2"
nix = { version = "=0.29.0", features = ["user"] }
pnet = "=0.35.0"
reqwest = { version = "=0.12.28", default-features = false }
serde = { version = "=1.0.229", features = ["derive"] }
serde_json = "=1.0.154"
tokio = { version = "=1.54.1", features = ["macros", "rt-multi-thread"] }
winreg = "=0.52.0"
