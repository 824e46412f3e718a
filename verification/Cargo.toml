[package]
name = "kong_init"
version = "0.1.0"
edition = "2021"
publish = false

[dependencies]
semver = "*"
clap = "*"
http = "*"
log = "*"
pretty_env_logger = "*"
reqwest = { version = "*", default-features = false, features = ["blocking", "json"] }
serde = { version = "*", features = ["derive"] }
serde_json = "*"
serde_yaml = "*"
