[package]
name = "hbproxy"
version = "0.1.2"
edition = "2021"
publish = false

[dependencies]
xid = "=1.1.1"
md5 = "=0.8.1"
hex = "=0.4.3"
chrono = "=0.4.45"
rand = "0.8"
serde = { version = "*", features = ["derive"] }
serde_json = "*"
serde_yaml = "*"
