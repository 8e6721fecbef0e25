[package]
name = "snapfaas"
version = "0.1.0"
edition = "2021"
publish = false

[dependencies]
crossbeam = "*"
uuid = { version = "*", features = ["v4"] }
ctrlc = "*"
