[package]
name = "trojan_tun"
version = "0.1.0"
edition = "2021"
publish = false

[dependencies]
bytes = "1"
smoltcp = "0.11"
rand = "0.8"
log = "0.4"
serde = { version = "1", features = ["derive"] }
serde_json = "1"
jni = "0.21"
tokio = { version = "1", features = ["rt-multi-thread", "sync", "time"] }
surge-ping = "0.8"
dns-lookup = "2"
