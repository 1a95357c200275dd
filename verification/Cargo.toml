[package]
name = "xplane_bridge"
version = "0.1.0"
edition = "2021"
publish = false

[dependencies]
clap = { version = "=4.6.7", features = ["derive"] }
env_logger = "=0.11.11"
futures-util = "=0.3.34"
log = "=0.4.34"
net2 = "=0.2.39"
serde = { version = "=1.0.229", features = ["derive"] }
serde_json = "=1.0.151"
tokio = { version = "=1.53.2", features = ["full"] }
tokio-gpiod = "=0.3.0"
tokio-util = { version = "=0.7.19", features = ["time"] }
warp = { version = "=0.4.3", features = ["server", "websocket"] }
