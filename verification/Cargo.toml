[package]
name = "vpn_core"
version = "0.1.0"
edition = "2021"
publish = false

[dependencies]
anyhow = "1"
dotenv = "*"
envy = "*"
rand = "*"
serde = { version = "1", features = ["derive"] }
smoltcp = "*"
tokio = { version = "1", features = ["full"] }
tun-rs = { version = "2", features = ["async"] }
