[package]
name = "nvim_api"
version = "0.1.0"
edition = "2021"
publish = false

[dependencies]
clap = "*"
serde = { version = "*", features = ["derive"] }
rmp-serde = "*"
rmpv = "*"
futures = "*"
rmp-rpc = "*"
tokio-core = "*"
tokio-io = "*"
tokio-uds = "*"
