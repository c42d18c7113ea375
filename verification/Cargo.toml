[package]
name = "logtool"
version = "0.1.0"
edition = "2021"
publish = false

[dependencies]
chardetng = "0.1"
encoding_rs = "0.8"
env_logger = "0.11"
humansize = "2"
log = "0.4"
notify = "6"
rayon = "1"
regex = "1"
serde = { version = "1", features = ["derive"] }
tokio = { version = "1", features = ["full"] }
