[package]
name = "my_redis"
version = "0.1.0"
edition = "2021"
publish = false

[dependencies]
once_cell = "1"
thiserror = "1"
tokio = { version = "1", features = ["io-util", "macros", "net", "rt-multi-thread"] }
