[package]
name = "nodedb_control"
version = "0.1.0"
edition = "2021"
publish = false

[dependencies]
axum = { version = "0.8", default-features = false, features = ["json", "query", "tokio"] }
futures = "0.3"
pgwire = { version = "*", default-features = false, features = ["server-api"] }
rust_decimal = "1"
serde_json = "1"
sonic-rs = "*"
sqlparser = "*"
tracing = "0.1"
