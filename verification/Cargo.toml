[package]
name = "verified_substreams"
version = "0.1.0"
edition = "2021"
publish = false

[dependencies]
substreams = "=0.5.22"
substreams-ethereum = "=0.9.13"
substreams-database-change = "=1.3.1"
substreams-sink-kv = "=0.1.3"
ethabi = "=17.2.0"
hex = "=0.4.3"
prost = "=0.11.9"
serde = { version = "=1.0.229", features = ["derive"] }
serde_json = "=1.0.154"
env_logger = "=0.10.2"

[dev-dependencies]
tiny-keccak = { version = "=2.0.2", features = ["keccak"] }
