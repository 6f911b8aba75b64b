[package]
name = "kata_linux"
version = "0.1.0"
edition = "2021"
publish = false

[dependencies]
libc = "0.2"
netlink-packet-route = "*"
netlink-packet-core = "*"
rtnetlink = "*"
tokio = { version = "1", features = ["rt", "time"] }
anyhow = "1"
scopeguard = "1"
async-trait = "0.1"
futures = "0.3"
cfg-if = "1"
