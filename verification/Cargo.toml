[package]
name = "ergot"
version = "0.1.0"
edition = "2021"
publish = false

[dependencies]
bbqueue = { version = "=0.7.0", features = ["std"] }
critical-section = { version = "=1.2.0", features = ["std"] }
heapless = { version = "=0.8.0", features = ["serde"] }
log = "=0.4.35"
maitake-sync = "=0.3.0"
mutex = "=1.0.2"
postcard = { version = "=1.1.3", features = ["use-std"] }
postcard-schema = { version = "=0.2.5", features = ["derive", "heapless-v0_8"] }
rand = "=0.9.5"
rand_core = "=0.9.5"
serde = { version = "=1.0.229", features = ["derive"] }
web-time = "=1.1.0"
