[package]
name = "ndc_pushdown"
version = "0.1.0"
edition = "2021"
publish = false

[dependencies]
uuid = { version = "=1.29.0", features = ["v4"] }
indexmap = "=2.14.2"
serde_json = "=1.0.154"
serde = { version = "=1.0.229", features = ["derive"] }
thiserror = "=1.0.69"
futures = "=0.3.34"
datafusion = { version = "=55.2.0", default-features = false }
getrandom = "=0.4.3"
