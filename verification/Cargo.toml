[package]
name = "aes67_capture"
version = "0.1.0"
edition = "2021"
publish = false

[dependencies]
uuid = { version = "=1.27.0", features = ["v4"] }
chrono = "=0.4.45"
clap = "*"
config = "*"
directories = "*"
env_logger = "*"
log = "*"
postgres = { version = "=0.19.14", features = ["with-chrono-0_4", "with-uuid-1"] }
rtp-rs = "=0.6.0"
