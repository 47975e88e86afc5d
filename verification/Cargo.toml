[package]
name = "oom_watcher"
version = "0.1.0"
edition = "2021"
publish = false

[dependencies]
anyhow = "1"
axum = "0.6"
aya = "0.13"
aya-ebpf = "0.1"
aya-log = "0.2"
bytes = "1"
env_logger = "0.11"
k8s-openapi = { version = "0.20", features = ["v1_28"] }
kube = { version = "0.87", default-features = false, features = ["client", "rustls-tls"] }
libc = "0.2"
log = "0.4"
prometheus = { version = "0.13", default-features = false }
regex = "1"
tokio = { version = "1", features = ["full"] }
