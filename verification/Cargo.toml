[package]
name = "rocks_proxy"
version = "0.1.0"
edition = "2021"
publish = false

[dependencies]
tokio = { version = "1", features = ["rt-multi-thread", "net", "io-util", "macros", "time"] }
clap = "4"
serde = { version = "1", features = ["derive"] }
toml = "0.8"
