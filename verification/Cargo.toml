[package]
name = "rustats"
version = "0.1.0"
edition = "2021"
publish = false

[dependencies]
libm = "0.2"
rand = "0.7"
rand_distr = "0.2"
serde = { version = "1", features = ["derive"] }
trackable = "1"
