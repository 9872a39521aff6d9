[package]
name = "kubeconfig_doctor"
version = "0.1.0"
edition = "2021"
publish = false

[dependencies]
kube = "*"
k8s-openapi = { version = "*", features = ["latest"] }
tokio = { version = "*", features = ["rt-multi-thread", "macros", "net", "time"] }
http = "*"
colored = "*"
home = "*"
secrecy = "*"
