[package]
name = "rebootsnap"
version = "0.1.0"
edition = "2021"
publish = false

[dependencies]
tokio = { version = "1", features = ["rt-multi-thread", "fs", "time", "macros"] }
serde = { version = "1", features = ["derive"] }
serde_json = "1"
thiserror = "2"
chrono = "0.4"
flate2 = "1"
tar = "0.4"
tempfile = "3"
tracing = "0.1"
tracing-subscriber = "0.3"
libc = "0.2"
futures-util = "0.3"
procfs = "*"
zbus = "5"
rtnetlink = "*"
netlink-packet-route = "*"
neli = "*"
