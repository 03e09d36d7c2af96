[package]
name = "flight_sim"
version = "0.1.0"
edition = "2021"
publish = false

[dependencies]
tokio = { version = "=1.53.2", features = ["rt-multi-thread", "macros", "time", "sync"] }
tokio-tungstenite = "=0.30.0"
warp = { version = "=0.4.3", features = ["server", "websocket"] }
futures = "=0.3.34"
serde = { version = "=1.0.229", features = ["derive"] }
serde_json = "=1.0.151"
uuid = { version = "=1.27.0", features = ["v4", "serde"] }
clap = { version = "=4.6.7", features = ["derive"] }
log = "=0.4.34"
env_logger = "=0.11.11"
nalgebra = { version = "=0.35.0", features = ["serde-serialize"] }
