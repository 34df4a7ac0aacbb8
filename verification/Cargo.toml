[package]
name = "substrate_egress"
version = "0.1.0"
edition = "2021"
publish = false

[dependencies]
http = "=1.5.0"
ipnet = "=2.12.2"
pem = "=3.0.6"
quick_cache = "=0.6.24"
serde = { version = "=1.0.229", features = ["derive"] }
tonic = { version = "=0.14.9", default-features = false }
x509-parser = "=0.18.1"

[dev-dependencies]
rcgen = { version = "=0.14.10", default-features = false, features = ["ring", "pem", "crypto"] }
