[package]
name = "jellysink"
version = "0.1.0"
edition = "2021"
publish = false

[dependencies]
clap = { version = "=4.6.7", features = ["derive"] }
color-eyre = "=0.6.5"
dialoguer = "=0.11.0"
directories = "=6.0.0"
futures-util = "=0.3.34"
ico = "=0.4.0"
ksni = "=0.3.7"
reqwest = { version = "=0.12.28", default-features = false, features = ["json", "rustls-tls"] }
rustix = { version = "=1.1.6", features = ["system", "fs", "process"] }
rustls = { version = "=0.23.46", default-features = false, features = ["ring", "std"] }
serde = { version = "=1.0.229", features = ["derive"] }
serde_json = "=1.0.154"
tokio = { version = "=1.54.1", features = ["full"] }
tokio-tungstenite = { version = "=0.26.2", features = ["rustls-tls-webpki-roots"] }
toml = "=0.8.23"
tracing = "=0.1.44"
tracing-error = "=0.2.1"
tracing-subscriber = { version = "=0.3.23", features = ["fmt", "registry", "std"] }
uuid = { version = "=1.29.0", features = ["v4"] }
zbus = "=5.19.0"
