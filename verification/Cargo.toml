[package]
name = "podlet"
version = "0.1.0"
edition = "2021"
publish = false

[dependencies]
shlex = "=2.0.1"
compose_spec = "=0.3.0"
serde_yaml = "*"
clap = { version = "*", features = ["derive"] }
color-eyre = "*"
k8s-openapi = { version = "=0.28.0", features = ["latest"] }
indexmap = "*"
