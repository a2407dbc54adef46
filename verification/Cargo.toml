[package]
name = "tango"
version = "0.1.0"
edition = "2021"
publish = false

[dependencies]
rand = "0.8"
rand_pcg = "0.3"
sha3 = "0.10"
subtle = "2.4"
zstd = "0.11"
serde = { version = "1", features = ["derive"] }
bincode = "1.3"
toml = "0.5"
