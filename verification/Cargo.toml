[package]
name = "bash_agent"
version = "0.1.0"
edition = "2021"
publish = false

[dependencies]
anyhow = "=1.0.104"
clap = { version = "=4.6.7", features = ["derive"] }
eventsource-stream = "=0.2.3"
futures = "=0.3.34"
nix = { version = "=0.29.0", features = ["term", "ioctl", "process", "fs"] }
prost = "=0.13.5"
reqwest = { version = "=0.12.28", default-features = false, features = ["json", "stream", "rustls-tls"] }
serde_json = "=1.0.154"
tokio = { version = "=1.54.1", features = ["full"] }
tonic = "=0.12.3"
