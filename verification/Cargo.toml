[package]
name = "metec_sensor"
version = "0.1.0"
edition = "2021"
publish = false

[dependencies]
mavlink = { version = "=0.13.1", default-features = false, features = ["std", "common"] }
num-traits = "=0.2.19"
crc-any = "=2.5.1"
bytes = "=1.12.1"
tokio-util = { version = "=0.7.20", features = ["codec"] }
tokio = { version = "=1.54.1", features = ["rt-multi-thread", "macros", "time", "fs", "io-util"] }
tokio-serial = { version = "=5.5.0", default-features = false }
tokio-stream = { version = "=0.1.19", features = ["time"] }
futures = "=0.3.34"
futures-util = "=0.3.34"
csv-async = { version = "=1.3.1", features = ["tokio"] }
serde = { version = "=1.0.229", features = ["derive"] }
clap = { version = "=4.6.7", features = ["derive", "env"] }
chrono = "=0.4.45"
dotenv = "=0.15.0"
log = "=0.4.34"
pretty_env_logger = "=0.5.0"
thiserror = "=1.0.69"
anyhow = "=1.0.104"
