[package]
name = "k8s_version_checker"
version = "0.1.0"
edition = "2021"
publish = false

[dependencies]
futures = "*"
k8s-openapi = { version = "*", features = ["latest"] }
kube = "*"
tokio = { version = "*", features = ["macros", "rt-multi-thread"] }
