[package]
name = "canbridge"
version = "0.1.0"
edition = "2021"
publish = false

[dependencies]
anyhow = "=1.0.104"
clap = { version = "=4.6.7", features = ["derive"] }
libc = "=0.2.191"
netlink-packet-core = "=0.9.0"
netlink-packet-route = "=0.33.0"
netlink-sys = "=0.9.0"
postcard = { version = "=1.1.3", features = ["use-std"] }
socketcan = { version = "=3.6.2", default-features = false }
tracing = "=0.1.44"
tracing-subscriber = { version = "=0.3.23", features = ["env-filter"] }

[dev-dependencies]
serde = "=1.0.229"
