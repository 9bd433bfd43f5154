[package]
name = "cli_testing_specialist"
version = "0.1.0"
edition = "2021"
publish = false

[dependencies]
num_cpus = "*"
serde = { version = "*", features = ["derive"] }
serde_json = "*"
serde_yaml = "*"
clap = { version = "*", features = ["derive"] }
chrono = "*"
libc = "*"
wait-timeout = "*"
log = "*"
env_logger = "*"
colored = "*"
hostname = "*"
