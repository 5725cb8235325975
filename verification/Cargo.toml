[package]
name = "backup_client"
version = "1.0.0"
edition = "2021"
publish = false

[dependencies]
sha2 = "=0.10.9"
hex = "=0.4.3"
aes-gcm = "=0.10.3"
rustls-pemfile = "=2.2.0"
chrono = "=0.4.45"
serde = { version = "=1.0.229", features = ["derive"] }
serde_json = "=1.0.154"
toml = "=0.8.23"
anyhow = "=1.0.104"
clap = { version = "=4.6.7", features = ["derive"] }
tokio = { version = "=1.54.1", features = ["full"] }
sqlx = { version = "=0.8.6", default-features = false, features = ["sqlite", "runtime-tokio", "chrono", "macros", "derive"] }
dialoguer = "=0.11.0"
console = "=0.15.11"
tokio-tungstenite = { version = "=0.24.0", features = ["rustls-tls-webpki-roots"] }
futures = "=0.3.34"
reqwest = { version = "=0.12.28", default-features = false, features = ["rustls-tls"] }
rustls = { version = "=0.23.46", default-features = false, features = ["ring", "std", "logging", "tls12"] }
rcgen = "=0.13.2"
time = "=0.3.55"
uuid = { version = "=1.29.0", features = ["v4"] }
tracing = "=0.1.44"
tracing-subscriber = { version = "=0.3.23", features = ["env-filter"] }
tracing-appender = "=0.2.5"
cron = "0.12"
machine-uid = "=0.5.4"
rand = "=0.8.8"
ratatui = "=0.29.0"
crossterm = "=0.28.1"
tokio-cron-scheduler = "=0.13.0"
