[package]
name = "rnc"
version = "0.1.0"
edition = "2021"

[dependencies]
clap = { version = "*", features = ["derive"] }
clap-verbosity-flag = "*"
env_logger = "*"
exitcode = "*"
human-panic = "*"
log = "*"
tokio = { version = "*", features = ["full"] }
tokio-util = "*"
