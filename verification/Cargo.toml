[package]
name = "fuel_bft"
version = "0.1.0"
edition = "2021"
publish = false

[dependencies]
fuel-crypto = { version = "*", features = ["random"] }
fuel-types = "*"
rand = "*"
tokio = { version = "*", features = ["rt-multi-thread", "sync", "time", "macros"] }
time = "*"

[dev-dependencies]
fuel-crypto = { version = "*", features = ["random"] }
rand = "*"
