[package]
name = "rstorch"
version = "0.1.0"
edition = "2021"
publish = false

[dependencies]
rand = { version = "0.8", features = ["small_rng"] }
ndarray = "0.15"
ndarray-rand = "0.14"
flate2 = "1"
reqwest = { version = "0.11", default-features = false, features = ["blocking"] }
