[package]
name = "token_mutators"
version = "0.1.0"
edition = "2021"
publish = false

[dependencies]
ahash = { version = "0.8", default-features = false }
libafl_bolts = { version = "0.11", default-features = false, features = ["std"] }
serde = { version = "1", features = ["derive"] }
