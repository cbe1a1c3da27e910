[package]
name = "plot_server"
version = "0.1.0"
edition = "2021"
publish = false

[dependencies]
chrono = "*"
serde_json = "*"
tokio = { version = "*", features = ["rt", "net", "macros"] }
tokio-tungstenite = "*"
tungstenite = "*"
futures-channel = "*"
futures-util = "*"
nix = { version = "*", features = ["user"] }
