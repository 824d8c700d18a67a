[package]
name = "divine_sky"
version = "0.1.0"
edition = "2021"
publish = false

[dependencies]
aes-gcm = "=0.10.3"
anyhow = "=1.0.104"
async-trait = "=0.1.92"
axum = "=0.7.9"
bs58 = "=0.5.1"
chrono = { version = "=0.4.45", default-features = false, features = ["alloc", "std", "clock"] }
data-encoding = "=2.11.1"
futures-util = "=0.3.34"
hex = "=0.4.3"
reqwest = { version = "=0.12.28", default-features = false, features = ["json", "rustls-tls"] }
secp256k1 = { version = "=0.29.1", features = ["rand-std"] }
serde = { version = "=1.0.229", features = ["derive"] }
serde_ipld_dagcbor = "*"
serde_json = "=1.0.154"
sha2 = "=0.10.9"
tokio = { version = "=1.54.1", features = ["rt-multi-thread", "macros", "net", "time"] }
tokio-tungstenite = { version = "=0.24.0", features = ["rustls-tls-webpki-roots"] }
tower-http = { version = "=0.5.2", features = ["cors"] }
unicode-segmentation = "=1.13.3"
url = "=2.5.8"
uuid = { version = "=1.29.0", features = ["v4"] }
