[package]
name = "beacon_light_client"
version = "0.1.0"
edition = "2021"
publish = false

[dependencies]
sha2 = "0.10"
bit-vec = "0.6"
rand = "0.8"
hex = "0.4"
math = "0.10"
serde = { version = "1", features = ["derive"] }
serde_json = "1"
reqwest = { version = "0.11", default-features = false, features = ["blocking", "json"] }
tokio = { version = "1", features = ["macros", "rt-multi-thread"] }
ethereum-types = "0.14"
eth2_ssz = "0.4"
eth2_ssz_types = "0.2"
