[package]
name = "node_telemetry"
version = "0.1.0"
edition = "2021"
publish = false

[dependencies]
better-panic = "0.3"
chrono = "0.4"
clap = { version = "4", features = ["derive"] }
crossbeam-channel = "0.5"
crossterm = "0.17"
ctrlc = "3"
fern = "0.6"
hyper = { version = "0.14", features = ["client", "http1", "http2", "tcp", "stream"] }
hyper-tls = "0.5"
log = "0.4"
num-rational = "0.4"
serde = { version = "1", features = ["derive"] }
serde_json = "1"
sysinfo = "0.30"
tokio = { version = "1", features = ["full"] }
tui = { version = "0.9", default-features = false, features = ["crossterm"] }
web3 = { version = "0.19", default-features = false, features = ["ws-tokio"] }
