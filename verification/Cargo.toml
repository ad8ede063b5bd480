[package]
name = "harvester_core"
version = "0.1.0"
edition = "2021"
publish = false

[dependencies]
aes = "0.8"
ccm = "0.5"
anyhow = "1"
log = "0.4"
esp-idf-svc = "*"
esp32-nimble = "*"

[dev-dependencies]
serde_json = "1"
