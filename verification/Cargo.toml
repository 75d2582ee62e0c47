[package]
name = "datetime"
version = "0.1.0"
edition = "2021"
publish = false

[dependencies]
date-rs = { version = "=1.6.2", features = ["tz"] }
strptime = "=1.1.3"
serde = "=1.0.229"
log = { version = "=0.4.34", features = ["kv"] }
diesel = { version = "=2.3.14", default-features = false, features = ["postgres_backend"] }
