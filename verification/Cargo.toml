[package]
name = "skyfix"
version = "0.1.0"
edition = "2021"
publish = false

[dependencies]
nalgebra = "0.34"
rand = "0.9"
rand_chacha = "0.9"
rand_distr = "0.5"
cudarc = { version = "0.19", default-features = false, features = ["std", "driver", "nvrtc", "cuda-12000", "dynamic-loading"] }
