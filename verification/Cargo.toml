[package]
name = "polaris"
version = "0.4.0"
edition = "2021"
publish = false

[dependencies]
libc = "0.2"
clap = { version = "4", features = ["derive"] }
cudarc = { version = "*", default-features = false, features = ["std", "driver", "dynamic-loading", "cuda-12050"] }
nvml-wrapper = "*"
