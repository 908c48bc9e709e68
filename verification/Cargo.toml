[package]
name = "tibco_ems_operator"
version = "0.1.0"
edition = "2021"
publish = false

[dependencies]
urlencoding = "=2.1.3"
kube = { version = "=3.1.0", features = ["client", "derive"] }
k8s-openapi = { version = "=0.27.1", features = ["latest"] }
tokio = { version = "=1.53.2", features = ["full"] }
futures = "=0.3.34"
serde = { version = "=1.0.229", features = ["derive"] }
serde_json = "=1.0.151"
schemars = "=1.2.2"
axum = "=0.8.9"
log = "=0.4.34"
env_logger = "=0.11.11"
tibco_ems = "=0.5.2"
