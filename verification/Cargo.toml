[package]
name = "chico"
version = "0.1.0"
edition = "2021"
publish = false

[dependencies]
http = "=1.5.0"
hyper = { version = "=1.12.0", features = ["full"] }
hyper-util = { version = "=0.1.21", features = ["tokio", "server", "http1"] }
http-body-util = "=0.1.5"
tokio = { version = "=1.54.1", features = ["full"] }
tokio-util = { version = "=0.7.20", features = ["io"] }
futures-util = "=0.3.34"
clap = { version = "=4.6.7", features = ["derive"] }
env_logger = "=0.11.11"
log = "=0.4.35"
mimee = "=0.2.0"
tracing = "=0.1.44"
tracing-subscriber = { version = "=0.3.23", features = ["env-filter"] }
tracing-appender = "=0.2.5"
directories = "=6.0.0"

[dev-dependencies]
nom = "7"
