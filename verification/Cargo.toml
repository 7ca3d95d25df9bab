[package]
name = "xshe"
version = "0.5.0"
edition = "2021"
publish = false

[dependencies]
clap = { version = "=4.6.7", features = ["derive", "env"] }
clap-verbosity-flag = "=3.0.4"
colored = "=3.1.1"
dirs = "=7.0.0"
env_logger = "=0.11.11"
exitcode = "=1.1.2"
human-panic = "=2.0.8"
indexmap = { version = "=2.14.2", features = ["serde"] }
log = "=0.4.34"
serde = { version = "=1.0.229", features = ["derive"] }
toml = { version = "=1.1.7", features = ["preserve_order"] }
