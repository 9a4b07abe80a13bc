[package]
name = "alicepi"
version = "0.1.0"
edition = "2021"
publish = false

[dependencies]
uuid = { version = "*", features = ["v4"] }
tokio = { version = "*", features = ["full"] }
serde = { version = "*", features = ["derive"] }
serde_json = "*"
clap = { version = "*", features = ["derive"] }
tracing = "*"
tracing-subscriber = { version = "*", features = ["env-filter"] }
dotenvy = "*"
futures-util = "*"
bytes = "*"
async-trait = "*"
reqwest = { version = "*", default-features = false, features = ["json", "stream"] }
tokio-tungstenite = "*"
url = "*"
hound = "*"
thiserror = "*"
