[package]
name = "usiagent"
version = "0.1.0"
edition = "2021"
publish = false

[dependencies]
rand = "0.8"
rand_xorshift = "0.3"
chrono = "0.4"
crossbeam-channel = "0.5"
queuingtask = "*"
