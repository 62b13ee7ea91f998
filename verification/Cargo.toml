[package]
name = "bbm"
version = "0.2.0"
edition = "2021"
publish = false

[dependencies]
anyhow = "=1.0.104"
async-trait = "=0.1.92"
chrono = { version = "=0.4.45", default-features = false, features = ["std", "clock"] }
clap = { version = "=4.6.7", features = ["derive"] }
clap_complete = "=4.6.11"
comfy-table = { version = "=7.2.2", default-features = false }
csv = "=1.4.0"
dirs = "=7.0.0"
env_logger = "=0.11.11"
futures = "=0.3.34"
log = "=0.4.35"
reqwest = { version = "=0.12.28", default-features = false, features = ["json", "rustls-tls"] }
sea-orm = { version = "=2.0.4", default-features = false, features = ["macros", "sqlx-sqlite", "runtime-tokio-rustls"] }
sea-orm-migration = { version = "=2.0.4", default-features = false, features = ["sqlx-sqlite", "runtime-tokio-rustls"] }
serde = { version = "=1.0.229", features = ["derive"] }
serde_json = "=1.0.154"
serde_yaml_ng = "=0.10.0"
tokio = { version = "=1.54.1", features = ["rt-multi-thread", "macros", "net", "time", "signal", "io-util", "sync"] }
tower = { version = "=0.5.3", features = ["retry", "util"] }
