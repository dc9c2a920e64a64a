[package]
name = "sweet_reticulum"
version = "0.1.0"
edition = "2021"
publish = false

[dependencies]
reticulum-rs-transport = "=0.2.0"
rand_core = { version = "=0.6.4", features = ["getrandom"] }
tokio = { version = "=1.54.1", features = ["rt", "rt-multi-thread", "sync", "time", "macros"] }
