[package]
name = "ghostwire"
version = "0.1.0"
edition = "2021"
publish = false

[dependencies]
anyhow = "=1.0.104"
aya = "=0.14.0"
aya-log = "=0.3.0"
bytes = "=1.12.1"
clap = { version = "=4.6.7", features = ["derive"] }
colored = "=3.1.1"
env_logger = "=0.11.11"
http-body-util = "=0.1.5"
hyper = { version = "=1.12.0", features = ["http1", "server"] }
hyper-util = { version = "=0.1.21", features = ["tokio"] }
lazy_static = "=1.5.1"
libc = "=0.2.191"
prometheus = { version = "=0.13.4", default-features = false }
serde = { version = "=1.0.229", features = ["derive"] }
serde_json = "=1.0.154"
serde_yaml = "=0.9.34"
tokio = { version = "=1.54.1", features = ["full"] }
tokio_schedule = "=0.3.2"
tracing = "=0.1.44"
tracing-subscriber = "=0.3.23"
