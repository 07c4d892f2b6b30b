[package]
name = "deploy_sc"
version = "0.1.0"
edition = "2021"
publish = false

[dependencies]
anyhow = "1"
base64 = "0.22"
chrono = "0.4"
clap = { version = "4", features = ["derive"] }
indicatif = "0.17"
k8s-openapi = { version = "*", features = ["latest"] }
kube = "*"
serde = { version = "1", features = ["derive"] }
serde_json = "1"
thiserror = "*"
tokio = { version = "1", features = ["full"] }
toml = "*"
tracing-subscriber = { version = "0.3", features = ["env-filter"] }
url = "2"
which = "*"
