[package]
name = "slackfm"
version = "0.1.0"
edition = "2021"
publish = false

[dependencies]
age = "=0.10.1"
axum = "=0.8.9"
chrono = "=0.4.45"
dotenvy = "=0.15.7"
error-stack = "=0.4.1"
menv = "=0.2.8"
oauth2 = "=4.4.2"
reqwest = { version = "=0.11.27", default-features = false, features = ["json", "rustls-tls"] }
serde = { version = "=1.0.229", features = ["derive"] }
serde_json = "=1.0.154"
slack-morphism = { version = "=2.31.1", features = ["hyper", "axum", "obsolete-chrono"] }
tokio = { version = "=1.54.1", features = ["full"] }
tracing = "=0.1.44"
tracing-error = "=0.2.1"
tracing-subscriber = { version = "=0.3.23", features = ["env-filter"] }
url = "=2.5.8"
