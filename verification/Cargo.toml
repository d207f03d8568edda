[package]
name = "commitments"
version = "0.1.0"
edition = "2021"
publish = false

[dependencies]
serde = { version = "*", features = ["derive"] }
prost = "*"
prost-types = "*"
sha2 = "*"

[dev-dependencies]
ethabi = "18"
