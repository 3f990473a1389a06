[package]
name = "jobshop"
version = "0.1.0"
edition = "2021"
publish = false

[dependencies]
rand = "0.9"
rand_chacha = "0.9"
rand_distr = "0.5"
csv = "1"
