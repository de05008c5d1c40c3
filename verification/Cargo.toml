[package]
name = "pg_dispatcher"
version = "0.1.0"
edition = "2021"
publish = false

[dependencies]
base64 = "=0.23.1"
clap = { version = "=4.6.7", features = ["string"] }
env_logger = "=0.11.11"
fallible-iterator = "=0.2.0"
log = "=0.4.34"
postgres = "=0.19.14"
redis = "=1.7.1"
serde = "=1.0.229"
serde_derive = "=1.0.229"
toml = "=1.1.6"
