[package]
name = "wave_proxy"
version = "0.1.0"
edition = "2021"
publish = false

[dependencies]
http-body-util = "*"
hyper = "*"
hyper-util = "*"
serde = { version = "*", features = ["derive"] }
serde_json = "*"
tokio = { version = "*", features = ["macros", "rt-multi-thread", "signal", "sync", "time"] }
tokio-stream = "*"
vercel_runtime = "*"
