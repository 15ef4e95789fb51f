[package]
name = "prompter"
version = "0.1.0"
edition = "2021"
publish = false

[dependencies]
rand = "0.8"
rand_chacha = "0.3"
qstring = "0.7"
hyper = { version = "0.14", features = ["full"] }
tokio = { version = "1", features = ["full"] }
env_logger = "0.10"
log = "0.4"
lazy_static = "1"
