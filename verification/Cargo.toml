[package]
name = "remote-mouse"
version = "0.1.0"
edition = "2021"
publish = false

[dependencies]
anyhow = "=1.0.104"
clap = { version = "=4.6.7", features = ["derive"] }
env_logger = "=0.10.2"
futures-util = "=0.3.34"
libc = "=0.2.191"
log = "=0.4.35"
socket2 = { version = "=0.5.10", features = ["all"] }
tokio = { version = "=1.54.1", features = ["io-util", "macros", "net", "rt", "signal", "sync", "time"] }
tokio-tungstenite = "=0.21.0"
tokio-util = { version = "=0.7.20", features = ["codec", "net", "rt"] }
x11rb = { version = "=0.13.2", features = ["xtest"] }
