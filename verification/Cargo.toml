[package]
name = "rusty_pipe"
version = "0.1.0"
edition = "2021"
publish = false

[dependencies]
anyhow = "1"
bollard = "0.13"
bytes = "1"
clap = { version = "3.2", features = ["derive"] }
env_logger = "0.9"
futures = "0.3"
home = "0.5"
human_bytes = "0.4"
indicatif = "0.17"
k8s-openapi = { version = "0.15", features = ["v1_24"] }
kube = { version = "0.74", default-features = false, features = ["client", "rustls-tls", "ws"] }
log = "0.4"
tokio = { version = "1", features = ["full"] }
tokio-util = { version = "0.7", features = ["codec"] }
