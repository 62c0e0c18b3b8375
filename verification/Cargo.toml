[package]
name = "zonegroup"
version = "0.1.0"
edition = "2021"
publish = false

[dependencies]
sonor = "*"
futures = "*"
tokio = { version = "*", features = ["macros", "rt-multi-thread"] }
