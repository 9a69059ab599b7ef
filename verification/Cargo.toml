[package]
name = "native_contracts"
version = "0.1.0"
edition = "2021"
publish = false

[dependencies]
cita-types = "=0.2.0"
cita-vm = "=0.6.4"
serde = { version = "1", features = ["derive"] }

[dev-dependencies]
serde_json = "1"
