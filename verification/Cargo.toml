[package]
name = "opra_statistical_profiler"
version = "0.1.0"
edition = "2021"
publish = false

[dependencies]
ahash = "0.8"
chrono = { version = "0.4", default-features = false, features = ["std", "serde"] }
dbn = "0.64"
env_logger = "0.10"
log = "0.4"
serde = { version = "1.0", features = ["derive"] }
serde_json = "1.0"
time = "0.3"
toml = "0.8"
