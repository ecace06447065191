[package]
name = "vps_monitor"
version = "0.1.0"
edition = "2021"
publish = false

[dependencies]
anyhow = "1"
argon2 = "0.5"
async-stream = "0.3"
axum = { version = "0.7", features = ["ws"] }
axum-extra = { version = "0.9", features = ["cookie"] }
bollard = "0.17"
clap = { version = "4", features = ["derive"] }
futures-util = "0.3"
hex = "0.4"
once_cell = "1"
r2d2 = "0.8"
r2d2_sqlite = "0.25"
rand = "0.8"
regex = "1"
rpassword = "7"
rusqlite = { version = "0.32", features = ["bundled"] }
serde = { version = "1", features = ["derive"] }
serde_json = "1"
sysinfo = "0.32"
time = "0.3"
tokio = { version = "1", features = ["full"] }
toml = "0.8"
tower-http = { version = "0.5", features = ["compression-gzip", "trace"] }
tracing = "0.1"
tracing-subscriber = { version = "0.3", features = ["env-filter"] }
