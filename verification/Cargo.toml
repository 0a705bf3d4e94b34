[package]
name = "canary_probe"
version = "0.1.0"
edition = "2021"
publish = false

[dependencies]
uuid = { version = "*", features = ["v4"] }
bollard = "*"
tokio = { version = "*", features = ["macros", "rt-multi-thread"] }
futures-util = "*"
anyhow = "*"
