[package]
name = "brain_b2b"
version = "0.1.0"
edition = "2021"
publish = false

[dependencies]
sha2 = "0.10"
urlencoding = "2"
chrono = "0.4"
glob = "0.3"
serde_json = "1"
zip = { version = "0.6", default-features = false, features = ["deflate"] }
mysql = "*"
