[package]
name = "texsift"
version = "0.1.0"
edition = "2021"
publish = false

[dependencies]
colored = "*"
clap = { version = "4", features = ["derive"] }
terminal_size = "*"
tokio = { version = "1", features = ["full"] }
tokio-stream = "0.1"
tokio-util = { version = "0.7", features = ["codec", "io"] }
