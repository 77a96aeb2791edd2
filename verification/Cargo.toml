[package]
name = "rsyncer"
version = "0.1.0"
edition = "2021"
publish = false

[dependencies]
async-duckdb = { version = "=0.3.1", default-features = false }
clap = "=4.6.7"
dirs = "=7.0.0"
dotenvy = "=0.15.7"
env_logger = "=0.11.11"
futures = "=0.3.34"
lastfm-rust = "=0.1.0"
log = "=0.4.34"
rspotify = { version = "=0.16.1", features = ["cli", "env-file"] }
serde = { version = "=1.0.229", features = ["derive"] }
serde_json = "=1.0.154"
thiserror = "=2.0.21"
tokio = { version = "=1.54.1", features = ["macros", "rt-multi-thread", "signal"] }
