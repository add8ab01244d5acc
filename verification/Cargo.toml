[package]
name = "tpm2_test_vectors"
version = "0.1.0"
edition = "2021"
publish = false

[dependencies]
hex = "0.4"
ron = "*"
serde = { version = "1", features = ["derive"] }
serde_with = { version = "3", features = ["hex"] }

[dev-dependencies]
nom = "8"
