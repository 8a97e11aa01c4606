[package]
name = "specfuzz"
version = "0.1.0"
edition = "2021"
publish = false

[dependencies]
rand = "0.8"
xxhash-rust = { version = "0.8", features = ["xxh3"] }
serde = { version = "1", features = ["derive"] }
serde_json = "1"
rmp-serde = "*"
ron = "*"
glob = "*"
colored = "*"
clap = "2"
core_affinity = "*"
libc = "0.2"
nix = "*"
