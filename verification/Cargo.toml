[package]
name = "session_channels"
version = "0.1.0"
edition = "2021"
publish = false

[dependencies]
bincode = "1"
log = "0.4"
env_logger = "0.10"
docopt = "1"
num = { version = "0.4", features = ["rand"] }
rand = "0.8"
openssl = "0.10"
