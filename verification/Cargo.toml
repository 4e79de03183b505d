[package]
name = "armature-websocket"
version = "0.4.0"
edition = "2021"
publish = false

[dependencies]
async-trait = "0.1"
bytes = "1"
dashmap = "6"
futures-util = "0.3"
parking_lot = "0.12"
serde = { version = "1", features = ["derive"] }
serde_json = "1"
thiserror = "2"
tokio = { version = "1", features = ["macros", "net", "rt", "rt-multi-thread", "sync", "time"] }
tokio-tungstenite = "*"
tracing = "0.1"
tungstenite = "*"
url = "2"
uuid = { version = "1", features = ["v4"] }
