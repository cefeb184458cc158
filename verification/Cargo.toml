[package]
name = "matrirc"
version = "0.1.0"
edition = "2021"
publish = false

[dependencies]
anyhow = "=1.0.104"
argon2 = { version = "=0.5.3", features = ["std"] }
async-trait = "=0.1.92"
base64 = "=0.22.1"
chacha20poly1305 = "=0.10.1"
chrono = { version = "=0.4.45", default-features = false, features = ["clock"] }
clap = { version = "=4.6.7", default-features = false, features = ["std", "derive", "help", "usage"] }
emoji = "=0.2.1"
env_logger = { version = "=0.11.11", default-features = false }
futures = { version = "=0.3.34", default-features = false, features = ["std", "async-await"] }
irc = { version = "=1.1.0", default-features = false }
lazy_static = "=1.5.1"
log = "=0.4.35"
matrix-sdk = { version = "=0.11.0", default-features = false, features = ["e2e-encryption", "sqlite", "sso-login", "rustls-tls"] }
percent-encoding = "=2.3.2"
regex = "=1.13.1"
serde = { version = "=1.0.229", features = ["derive"] }
serde_json = "=1.0.154"
tokio = { version = "=1.54.1", features = ["rt-multi-thread", "macros", "net", "sync", "time", "fs", "io-util"] }
tokio-util = { version = "=0.7.20", features = ["codec"] }
