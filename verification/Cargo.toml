[package]
name = "ankaios_sdk"
version = "0.5.0"
edition = "2021"
publish = false

[dependencies]
uuid = { version = "*", features = ["v4"] }
prost = "*"
serde_yaml = "*"
tokio = { version = "*", features = ["full"] }
tokio-stream = "*"
tonic = "*"
tonic-prost = "*"
async-trait = "*"
log = "*"
thiserror = "*"
