[package]
name = "pls"
version = "0.1.0"
edition = "2021"
publish = false

[dependencies]
anyhow = "1"
clap = { version = "4", features = ["derive"] }
ctrlc = "3"
env_logger = "0.11"
glob = "0.3"
log = "0.4"
nix = { version = "0.29", features = ["signal", "process"] }
notify = "6"
notify-debouncer-mini = "0.4"
rand = "0.8"
serde = { version = "1", features = ["derive"] }
shellexpand = "3"
shlex = "1.3"
toml = "0.8"
