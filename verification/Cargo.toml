[package]
name = "imgpool"
version = "0.1.0"
edition = "2021"
publish = false

[dependencies]
crossbeam-deque = "*"
tokio = { version = "*", features = ["rt-multi-thread", "sync", "signal", "macros"] }
num_cpus = "*"
thread-id = "*"
log = "*"
env_logger = "*"
