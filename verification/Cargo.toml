[package]
name = "chat_bridge"
version = "0.1.0"
edition = "2021"
publish = false

[dependencies]
tokio = { version = "*", features = ["macros", "rt-multi-thread", "net", "sync"] }
tokio-tungstenite = "*"
futures-util = "*"
poise = "*"
serde = { version = "*", features = ["derive"] }
serde_json = "*"
thiserror = "*"
dotenv = "*"
env_logger = "*"
actix-web = "*"
actix-files = "*"
