[package]
name = "packhub"
version = "0.1.0"
edition = "2021"
publish = false

[dependencies]
anyhow = "=1.0.104"
ar = "=0.9.0"
axum = "=0.8.9"
axum-extra = { version = "=0.12.6", features = ["typed-header"] }
axum-server = { version = "=0.8.0", features = ["tls-rustls"] }
chrono = "=0.4.45"
dotenvy = "=0.15.7"
futures-util = "=0.3.34"
lenient_semver = "=0.4.2"
libflate = "=2.3.2"
md-5 = "=0.11.0"
regex = "=1.13.1"
reqwest = { version = "=0.12.28", default-features = false, features = ["rustls-tls", "stream"] }
rpm = { version = "=0.30.2", default-features = false, features = ["payload"] }
rustls = "=0.23.46"
semver = "=1.0.28"
sequoia-openpgp = { version = "=2.4.2", default-features = false, features = ["crypto-rust", "allow-experimental-crypto", "allow-variable-time-crypto"] }
serde = { version = "=1.0.229", features = ["derive"] }
serde_json = "=1.0.154"
sha1 = "=0.11.0"
sha2 = "=0.11.1"
tar = "=0.4.46"
tokio = { version = "=1.54.1", features = ["full"] }
tower-http = { version = "=0.7.1", features = ["fs", "trace"] }
tracing = "=0.1.44"
tracing-subscriber = "=0.3.23"
zstd = "=0.14.3"
