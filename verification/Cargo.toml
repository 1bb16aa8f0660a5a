[package]
name = "ducktape"
version = "0.1.0"
edition = "2021"
publish = false

[dependencies]
base64 = "0.22"
borsh = "1"
commonware-codec = "*"
commonware-cryptography = "*"
futures = "0.3"
libc = "0.2"
rand = "0.9"
reqwest = { version = "0.12", default-features = false }
serde_json = "1"
sha2 = "0.10"
tokio = { version = "1", features = ["io-util", "macros", "net", "rt", "sync", "time"] }
tokio-tungstenite = "*"
tracing = "0.1"
unicode-segmentation = "1"
zeroize = "1"
