[package]
name = "input_validation"
version = "0.1.0"
edition = "2021"
publish = false

[dependencies]
infer = "=0.22.0"
uuid = { version = "=1.29.0", features = ["v5"] }

[dev-dependencies]
cfb = "=0.14.0"
regex = "=1.13.1"
