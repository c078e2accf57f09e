[package]
name = "cldpip"
version = "0.1.0"
edition = "2021"
publish = false

[dependencies]
bincode = "=1.3.3"
bytes = "=1.12.1"
chrono = { version = "=0.4.45", features = ["serde"] }
clap = { version = "=4.6.7", features = ["derive"] }
colored = "=2.2.0"
dotenvy = "=0.15.7"
log = "=0.4.34"
public-ip = "=0.2.2"
reqwest = { version = "=0.12.28", default-features = false, features = ["json", "rustls-tls"] }
rumqttc = "=0.24.0"
serde = { version = "=1.0.229", features = ["derive"] }
serde_json = "=1.0.151"
tokio = { version = "=1.53.2", features = ["rt-multi-thread", "macros", "time"] }
