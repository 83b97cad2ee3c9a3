[package]
name = "noip_duc"
version = "0.1.0"
edition = "2021"
publish = false

[dependencies]
base64 = "0.22"
percent-encoding = "2"
humantime = "2"
log = "0.4"
anyhow = "1"
clap = { version = "4", features = ["derive", "env"] }
env_logger = "0.11"
minreq = { version = "2", features = ["https"] }
dirs = "5"
serde = { version = "1", features = ["derive"] }
serde_json = "1"
keyring = "3"
reqwest = { version = "0.12", default-features = false, features = ["blocking", "rustls-tls"] }
daemonize = "0.5"
libc = "0.2"
