[package]
name = "world_host_server"
version = "0.1.0"
edition = "2021"
publish = false

[dependencies]
uuid = { version = "1", features = ["v4"] }
tokio = { version = "1", features = ["full"] }
tokio-tungstenite = "0.20"
tungstenite = "0.20"
futures = "0.3"
futures-util = "0.3"
log = "0.4"
simple_logger = "4"
argparse = "0.2"
