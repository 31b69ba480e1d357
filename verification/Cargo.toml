[package]
name = "hestia"
version = "0.1.0"
edition = "2021"
publish = false

[dependencies]
blake3 = "1"
num_cpus = "1"
serde = { version = "1", features = ["derive"] }
serde_json = "1"
toml = "*"
dirs = "*"
tokio = { version = "1", features = ["full"] }
notify = "*"
notify-debouncer-full = "*"
chrono = "*"
thiserror = "*"
anyhow = "1"
async-trait = "*"
sea-orm = { version = "1", features = ["sqlx-sqlite", "runtime-tokio-rustls", "macros"] }

[dev-dependencies]
