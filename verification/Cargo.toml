[package]
name = "greeter"
version = "0.1.0"
edition = "2021"
publish = false

[dependencies]
poem = "*"
tokio = { version = "*", features = ["macros", "rt-multi-thread"] }
tracing-subscriber = "*"
