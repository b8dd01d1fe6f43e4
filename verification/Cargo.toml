[package]
name = "amqp_api"
version = "0.1.0"
edition = "2021"
publish = false

[dependencies]
jsonwebtoken = "=9.3.1"
lapin = "=2.5.5"
tokio = { version = "=1.53.2", features = ["rt-multi-thread", "sync", "fs", "macros", "time"] }
async-channel = "=2.5.0"
futures-util = "=0.3.34"
log = "*"
uuid = { version = "=1.27.0", features = ["v4"] }
serde = { version = "*", features = ["derive"] }
serde_json = "=1.0.151"
reqwest = { version = "=0.12.28", default-features = false, features = ["json", "rustls-tls"] }
tokio-executor-trait = "=2.4.0"
tokio-reactor-trait = "=1.1.0"
cooplan-lapin-wrapper = "=0.5.0"
cooplan-state-tracker = "=0.2.0"
