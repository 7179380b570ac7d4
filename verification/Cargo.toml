[package]
name = "echo_relay"
version = "0.1.0"
edition = "2021"
publish = false

[dependencies]
anyhow = "1"
chrono = "0.4"
clap = "4"
env_logger = "0.11"
futures-util = "0.3"
log = "0.4"
rpassword = "7"
tokio = { version = "1", features = ["macros", "net", "rt-multi-thread"] }
tokio-native-tls = "0.3"
tokio-tungstenite = "*"
