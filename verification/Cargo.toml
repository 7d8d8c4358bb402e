[package]
name = "sensor_uplink"
version = "0.1.0"
edition = "2021"
publish = false

[dependencies]
anyhow = "1"
dht-sensor = "*"
embedded-svc = "*"
esp-idf-svc = "*"
serde = { version = "1", features = ["derive"] }
serde_json = "1"
toml-cfg = "*"
