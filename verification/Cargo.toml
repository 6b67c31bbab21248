[package]
name = "pact_protobuf"
version = "0.1.0"
edition = "2021"
publish = false

[dependencies]
ansi_term = "=0.12.1"
anyhow = "1"
bytes = "=1.12.1"
http = "=0.2.12"
itertools = "=0.10.5"
pact_matching = { version = "=0.12.13", default-features = false }
pact_models = { version = "=0.4.6", default-features = false }
pact-plugin-driver = { version = "=0.1.14", default-features = false }
pact_verifier = { version = "0.13", default-features = false }
prost = "=0.11.9"
prost-types = "=0.11.9"
serde_json = "1"
tonic = "=0.8.3"
tower = { version = "=0.4.13", features = ["util"] }
tracing = "0.1"
