[package]
name = "gestalt"
version = "0.1.0"
edition = "2021"
publish = false

[dependencies]
rand = "=0.10.3"
anyhow = "=1.0.104"
axum = "=0.8.9"
futures-util = "=0.3.34"
http = "=1.5.0"
k8s-openapi = { version = "=0.27.1", features = ["latest"] }
kube = { version = "=3.1.0", features = ["runtime"] }
tokio = { version = "=1.53.2", features = ["macros", "rt-multi-thread", "net"] }
tower = "=0.5.3"
tower-http = "=0.7.1"
