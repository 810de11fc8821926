[package]
name = "stage_dmx"
version = "0.1.0"
edition = "2021"
publish = false

[dependencies]
sacn = "*"
get_if_addrs = "*"
serde = { version = "*", features = ["derive"] }
serde_json = "*"
