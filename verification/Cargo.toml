[package]
name = "kubetui"
version = "0.1.0"
edition = "2021"
publish = false

[dependencies]
serde = { version = "1", features = ["derive"] }
serde_json = "1"
crossbeam = "0.8"
crossterm = "0.25"
tui = { version = "0.19", default-features = false, features = ["crossterm"] }
tokio = { version = "1", features = ["rt-multi-thread", "sync", "time", "macros"] }
futures = "0.3"
async-trait = "0.1"
chrono = "0.4"
kube = "0.87"
k8s-openapi = { version = "0.20", features = ["v1_28"] }
