[package]
name = "eventuals"
version = "0.1.0"
edition = "2021"
publish = false

[dependencies]
by_address = "*"
futures = "*"
never = "*"
tokio = { version = "*", features = ["macros", "rt-multi-thread", "sync", "time"] }
