[package]
name = "moonrabbit"
version = "0.1.0"
edition = "2021"
publish = false

[dependencies]
parity-scale-codec = { version = "=2.3.1", default-features = false, features = ["std"] }
tiny-keccak = { version = "=2.0.2", features = ["keccak"] }
thiserror = "=1.0.69"
serde = { version = "=1.0.229", features = ["derive"] }
futures = "=0.3.34"
sp-core = "=43.0.0"
syn = { version = "=1.0.109", features = ["full"] }
quote = "=1.0.47"
