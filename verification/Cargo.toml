[package]
name = "quic_bootstrap"
version = "0.1.0"
edition = "2021"
publish = false

[dependencies]
rcgen = "=0.11.3"
quinn = "=0.9.4"
rustls = { version = "=0.20.9", features = ["dangerous_configuration"] }
tokio = { version = "=1.53.2", features = ["rt-multi-thread", "macros"] }

[dev-dependencies]
pem = "=1.1.1"
