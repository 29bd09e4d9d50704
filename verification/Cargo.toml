[package]
name = "ec2_rs"
version = "0.1.0"
edition = "2021"
publish = false

[dependencies]
chrono = "0.4"
concurrent-hashmap = "0.2"
failure = "0.1"
fnv = "1"
lazy_static = "1"
openssl-probe = "0.1"
rayon = "1"
regex = "1"
rusoto_core = "0.42"
rusoto_credential = "0.42"
rusoto_ec2 = "0.42"
rusoto_sts = "0.42"
serde = { version = "1", features = ["derive"] }
serde_derive = "1"
serde_json = "1"
shellexpand = "1"
slog = "2"
slog-async = "2"
slog-json = "2"
slog-term = "2"
toml = "0.5"
