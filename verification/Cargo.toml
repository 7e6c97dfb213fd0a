[package]
name = "kino"
version = "0.1.0"
edition = "2021"
publish = false

[dependencies]
anyhow = "=1.0.104"
axum = "=0.8.9"
clap = { version = "=4.6.7", features = ["derive"] }
crossterm = "=0.29.0"
hcl-rs = "=0.20.0"
k8s-openapi = { version = "=0.29.0", features = ["latest"] }
kube = "=5.0.0"
portable-pty = "=0.9.0"
prost = "=0.14.4"
regex = "=1.13.1"
serde = { version = "=1.0.229", features = ["derive"] }
serde_json = "=1.0.154"
signal-hook = "=0.4.6"
thiserror = "=2.0.21"
tokio = { version = "=1.54.1", features = ["full"] }
tokio-vsock = { version = "=0.7.3", features = ["axum08"] }

[dev-dependencies]
tempfile = "=3.27.0"
