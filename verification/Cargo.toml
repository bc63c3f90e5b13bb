[package]
name = "common-rust"
version = "0.3.0"
edition = "2021"
publish = false

[dependencies]
tracing = "=0.1.44"
tracing-subscriber = { version = "=0.3.23", features = ["env-filter", "json", "fmt", "registry"] }
toml = "=0.8.23"
url = "=2.5.8"
time = { version = "=0.3.55", features = ["parsing", "formatting"] }
axum = "=0.8.9"
axum-extra = { version = "=0.10.3", features = ["cookie"] }
reqwest = { version = "=0.12.28", default-features = false, features = ["json"] }
serde = { version = "=1.0.229", features = ["derive"] }
serde_json = "=1.0.154"
sqlx = { version = "=0.8.6", default-features = false, features = ["sqlite", "runtime-tokio"] }
tokio = { version = "=1.54.1", features = ["full"] }
anyhow = "=1.0.104"
uuid = { version = "=1.29.0", features = ["v4"] }
backon = "=1.6.0"
syn = { version = "=2.0.119", features = ["full"] }
quote = "=1.0.47"
proc-macro2 = "=1.0.107"
