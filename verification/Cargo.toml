[package]
name = "iowatch"
version = "0.1.0"
edition = "2021"
publish = false

[dependencies]
anyhow = "1"
clap = { version = "4", features = ["derive"] }
crossbeam = "0.8"
crossbeam-channel = "0.5"
ctrlc = "3"
env_logger = "0.10"
ignore = "0.4"
log = "0.4"
nix = { version = "0.27", features = ["signal", "process"] }
notify-debouncer-mini = "0.3"
thiserror = "1"
