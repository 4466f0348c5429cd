[package]
name = "nanofish"
version = "0.1.0"
edition = "2021"
publish = false

[dependencies]
heapless = "=0.9.3"
embassy-net = { version = "=0.9.1", features = ["tcp", "dns", "proto-ipv4", "medium-ethernet"] }
embassy-time = "=0.5.1"
embedded-io-async = "=0.7.0"
embedded-tls = { version = "=0.19.0", default-features = false }
rand_chacha = { version = "=0.3.1", default-features = false }
rand_core = { version = "=0.6.4", default-features = false }
