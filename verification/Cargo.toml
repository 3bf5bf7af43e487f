[package]
name = "upbit"
version = "0.1.0"
edition = "2021"
publish = false

[dependencies]
base16ct = "0.2"
hmac = "0.12"
jwt = "0.16"
sha2 = "0.10"
uuid = { version = "1", features = ["v4"] }
serde_json = "1"
serde = { version = "1", features = ["derive"] }
reqwest = { version = "0.11", default-features = false, features = ["json", "rustls-tls"] }
tokio = { version = "1", features = ["rt-multi-thread", "macros", "time"] }
tungstenite = { version = "0.19", features = ["rustls-tls-webpki-roots"] }
