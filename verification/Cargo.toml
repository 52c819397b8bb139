[package]
name = "kvm-rs"
version = "0.2.0"
edition = "2021"
publish = false

[dependencies]
sha2 = "0.10"
rand = "0.8"
chrono = { version = "0.4", features = ["serde"] }
serde = { version = "1", features = ["derive"] }
bincode = "1"
toml = "0.8"
dirs = "5"
hostname = "0.4"
uuid = { version = "1", features = ["v4", "serde"] }
tokio = { version = "1", features = ["full"] }
tokio-util = "0.7"
rustls = { version = "0.23", default-features = false, features = ["ring", "std", "tls12", "logging"] }
tokio-rustls = { version = "0.26", default-features = false, features = ["ring", "tls12", "logging"] }
rustls-pemfile = "2"
rcgen = "0.11"
mdns-sd = "0.11"
enigo = "0.2"
rdev = { version = "0.5", features = ["unstable_grab"] }
arboard = { version = "3", default-features = false }
clap = { version = "4", features = ["derive"] }
tracing = "0.1"
tracing-subscriber = { version = "0.3", features = ["env-filter"] }
thiserror = "1"
anyhow = "1"
