[package]
name = "vector"
version = "0.1.0"
edition = "2021"
publish = false

[dependencies]
glob = "0.3"
regex = "1"
chrono = "0.4"
sha2 = "0.10"
hex = "0.4"
http = "0.2"
