[package]
name = "xorfilter"
version = "0.1.0"
edition = "2021"
publish = false

[dependencies]
cbordata = "*"
rand = { version = "0.8", features = ["small_rng"] }
structopt = "0.3"
