[package]
name = "nm_configurator"
version = "0.1.0"
edition = "2021"
publish = false

[dependencies]
anyhow = "1"
log = "0.4"
network-interface = "*"
nmstate = "*"
serde = { version = "1", features = ["derive"] }
serde_yaml = "*"
