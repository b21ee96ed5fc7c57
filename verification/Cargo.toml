[package]
name = "mongo_read_query"
version = "0.1.0"
edition = "2021"
publish = false

[dependencies]
bson = "=2.15.0"
regex = "=1.13.1"
mongodb = { version = "=3.9.1", default-features = false, features = ["compat-3-0-0", "rustls-tls"] }
