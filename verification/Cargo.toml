[package]
name = "dockdockgo"
version = "0.1.0"
edition = "2021"
publish = false

[dependencies]
sha2 = "0.10"
rcgen = "0.11"
uuid = { version = "1", features = ["v4"] }
anyhow = "1"
tokio = { version = "1", features = ["full"] }
hyper = { version = "0.14", features = ["full"] }
reqwest = { version = "0.11", default-features = false, features = ["rustls-tls"] }
rustls = "0.21"
rustls-pemfile = "1"
tokio-rustls = "0.24"
serde = { version = "1", features = ["derive"] }
serde_json = "1"

[dev-dependencies]
x509-parser = "0.16"
rustls-webpki = "0.101"
