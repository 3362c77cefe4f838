[package]
name = "sosistab2-obfsws"
version = "0.1.0"
edition = "2021"
publish = false

[dependencies]
anyhow = "1"
async-h1 = "2"
async-std = "=1.12.0"
async-trait = "0.1"
async-tungstenite = { version = "=0.24.0", features = ["async-std-runtime", "async-tls"] }
base64 = "=0.21.7"
bincode = "=1.3.3"
blake3 = "=1.8.7"
bytes = "=1.12.1"
clap = { version = "4", default-features = false, features = ["std", "derive", "help", "usage", "error-context"] }
cryptoxide = "=0.4.4"
env_logger = { version = "0.10", default-features = false }
fastrand = "=2.5.0"
futures-util = { version = "0.3", default-features = false, features = ["std", "io", "sink"] }
generator = "=0.7.0"
hex = "=0.4.3"
log = "0.4"
pin-project = "1"
rand = "=0.8.8"
serde = { version = "1", features = ["derive"] }
serde_json = "1"
smol = "=1.3.0"
smol-timeout = "0.6"
smolscale = "0.4"
smolscale2 = "0.4"
socksv5 = "=0.3.1"
sosistab2 = "=0.10.21"
