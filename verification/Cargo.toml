[package]
name = "vulner"
version = "0.1.0"
edition = "2021"
publish = false

[dependencies]
regex = "=1.13.1"
sha2 = "=0.11.0"
serde = { version = "=1.0.229", features = ["derive"] }
serde_json = "=1.0.151"
structopt = "=0.3.26"
tokio = { version = "=1.53.2", features = ["macros", "rt-multi-thread", "fs", "process", "io-util"] }
reqwest = { version = "=0.12.28", default-features = false, features = ["json", "gzip", "rustls-tls", "stream"] }
env_logger = "=0.11.11"
log = "=0.4.34"
confy = "=2.0.0"
atty = "=0.2.14"
once_cell = "=1.21.4"
indicatif = "=0.18.6"
secrecy = "=0.10.3"
futures-util = "=0.3.34"
tokio-stream = "=0.1.19"
tokio-util = { version = "=0.7.19", features = ["io"] }
time = "=0.3.55"
rayon = "=1.12.0"
