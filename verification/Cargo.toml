[package]
name = "solvency"
version = "0.1.0"
edition = "2021"
publish = false

[dependencies]
bulletproofs = { version = "=4.0.0", features = ["yoloproofs"] }
curve25519-dalek = "=4.1.3"
curve25519-dalek-ng = "=4.1.1"
linear-map = "=1.2.0"
serde = { version = "=1.0.229", features = ["derive"] }

[dev-dependencies]
merlin = "=3.0.0"
