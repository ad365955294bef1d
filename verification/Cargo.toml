[package]
name = "wind"
version = "0.1.0"
edition = "2021"
publish = false

[dependencies]
bytes = "1"
hex = "0.4"
uuid = "1"
tokio = { version = "1", features = ["full"] }
tokio-util = { version = "0.7", features = ["codec", "rt"] }
quinn = { version = "0.11", default-features = false, features = ["runtime-tokio", "rustls-ring"] }
rustls = { version = "0.23", default-features = false, features = ["ring", "std"] }
rustls-platform-verifier = "*"
eyre = "0.6"
snafu = "0.8"
moka = { version = "0.12", features = ["future"] }
crossfire = "*"
arc-swap = "1"
fast-socks5 = "*"
socket2 = "*"
quinn-udp = "*"
futures = "0.3"
clap = { version = "4", features = ["derive"] }
serde = { version = "1", features = ["derive"] }
figment = { version = "0.10", features = ["toml", "yaml", "env"] }
toml = "*"
serde_yaml = "0.9"
humantime-serde = "1"
tracing = "0.1"
tracing-subscriber = { version = "0.3", features = ["local-time"] }
time = { version = "0.3", features = ["macros"] }
