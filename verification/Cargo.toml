[package]
name = "minute_forecast"
version = "0.1.0"
edition = "2021"
publish = false

[dependencies]
anyhow = "1"
burn-autodiff = { version = "0.16", default-features = false, features = ["std"] }
burn-ndarray = { version = "0.16", default-features = false, features = ["std"] }
polars = { version = "0.46", default-features = false }
rayon = "1"
