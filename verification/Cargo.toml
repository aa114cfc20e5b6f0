[package]
name = "event_reports"
version = "0.1.0"
edition = "2021"
publish = false

[dependencies]
serde_json = { version = "=1.0.154", features = ["raw_value"] }
serde = "=1.0.229"
serde_derive = "=1.0.229"
couchbase = "=1.1.0"
futures = "=0.3.34"
tokio = { version = "=1.54.1", features = ["rt-multi-thread"] }
log = "=0.3.9"
fern = "=0.4.4"
chrono = "=0.4.45"
colored = "=1.9.4"
clap = "=2.34.0"
nickel = "=0.10.2"
rustc-serialize = "=0.3.25"
