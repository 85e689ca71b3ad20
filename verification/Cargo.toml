[package]
name = "signal-stream"
version = "0.1.0"
edition = "2021"
publish = false

[dependencies]
base64 = "=0.21.7"
futures-util = { version = "=0.3.34", default-features = false, features = ["std", "sink"] }
log = "=0.4.35"
prost = "=0.12.6"
rustls-native-certs = "=0.6.3"
tokio = { version = "=1.54.1", features = ["io-util", "net", "rt", "sync"] }
tokio-rustls = { version = "=0.24.1", features = ["dangerous_configuration"] }
tokio-tungstenite = { version = "=0.20.1", features = ["rustls-tls-native-roots"] }
url = "=2.5.8"
