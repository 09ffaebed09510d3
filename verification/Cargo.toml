[package]
name = "quantum_email"
version = "0.1.0"
edition = "2021"
publish = false

[dependencies]
pqcrypto-kyber = "0.8"
pqcrypto-traits = "0.3"
base64 = "0.13"
uuid = { version = "1", features = ["v4"] }
serde = { version = "1", features = ["derive"] }
serde_json = "1"
