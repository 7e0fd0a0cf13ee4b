[package]
name = "verifiable_memory_example"
version = "0.1.0"
edition = "2021"
publish = false

[dependencies]
sha2 = "*"
sparse-merkle-tree = { version = "*", features = ["blake2b"] }
blake2 = "*"
hex = "*"
serde_json = "*"
