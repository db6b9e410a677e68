[package]
name = "ntt_bench"
version = "0.1.0"
edition = "2021"
publish = false

[dependencies]
rand = "0.8"
rand_chacha = "0.3"
ark-ec = "0.3"
ark-std = "0.3"
rayon = "1"
sppark = "*"
