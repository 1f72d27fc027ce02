[package]
name = "oaat"
version = "0.3.0"
edition = "2021"
publish = false

[dependencies]
bytes = "1"
sha2 = "0.10"
tokio = { version = "1", features = ["full"] }
serde = { version = "1", features = ["derive"] }
serde_json = "1"
toml = "0.8"
clap = { version = "4", features = ["derive"] }
tracing = "0.1"
tracing-subscriber = { version = "0.3", features = ["env-filter"] }
uuid = { version = "1", features = ["v4"] }
mdns-sd = "0.11"
hostname = "0.4"
rustls = { version = "0.23", default-features = false, features = ["ring", "std", "tls12", "logging"] }
rcgen = "0.13"
cpal = "0.15"
ringbuf = "0.4"
symphonia = { version = "0.5", features = ["flac"] }
hyper = { version = "1", features = ["server", "http1"] }
hyper-util = { version = "0.1", features = ["tokio"] }
http-body-util = "0.1"
thiserror = "2"
