[package]
name = "social_pipeline"
version = "0.1.0"
edition = "2021"
publish = false

[dependencies]
prost = "*"
prost-types = "*"
tokio = { version = "*", features = ["rt-multi-thread", "macros", "sync", "time", "net", "signal"] }
rdkafka = "*"
redis = { version = "*", features = ["tokio-comp"] }
axum = "*"
futures-util = "*"
url = "*"
megalodon = "*"
schema_registry_converter = "*"

[dev-dependencies]
serde_json = "*"
