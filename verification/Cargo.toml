[package]
name = "cloudstate"
version = "0.1.0"
edition = "2021"
publish = false

[dependencies]
anyhow = "=1.0.104"
axum = "=0.7.9"
clap = { version = "=4.6.7", features = ["derive"] }
deno_core = "*"
notify = "=6.1.1"
redb = "=2.6.4"
redis = "=1.8.0"
tokio = { version = "=1.54.1", features = ["full"] }
tower = "=0.5.3"
tracing = "=0.1.44"
tracing-subscriber = "=0.3.23"
