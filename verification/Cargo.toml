[package]
name = "ipsecret_sync"
version = "0.1.0"
edition = "2021"
publish = false

[dependencies]
anyhow = "=1.0.104"
chrono = "=0.4.45"
env_logger = "=0.11.11"
futures = "=0.3.34"
k8s-openapi = { version = "=0.28.0", features = ["latest"] }
kube = { version = "=4.2.0", default-features = false, features = ["client", "runtime"] }
log = "=0.4.34"
serde = { version = "=1.0.229", features = ["derive"] }
serde_json = "=1.0.154"
serde_yaml = "=0.9.34"
tokio = { version = "=1.54.1", features = ["macros", "rt-multi-thread", "signal", "sync", "time"] }

[dev-dependencies]
base64 = "=0.22.1"
