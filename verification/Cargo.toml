[package]
name = "juno"
version = "0.1.0"
edition = "2021"
publish = false

[dependencies]
anyhow = "1"
bytes = "1"
clap = { version = "4", features = ["derive"] }
futures = "0.3"
http-body-util = "0.1"
hyper = { version = "1", features = ["client", "http1", "server"] }
hyper-util = { version = "0.1", features = ["tokio"] }
libc = "0.2"
systemd = "*"
thiserror = "*"
tokio = { version = "1", features = ["io-util", "macros", "net", "rt-multi-thread", "signal"] }
tower = { version = "*", features = ["util"] }
tracing = "0.1"
tracing-subscriber = { version = "0.3", features = ["env-filter"] }
