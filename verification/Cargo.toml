[package]
name = "zeroday_scan"
version = "0.1.0"
edition = "2021"
publish = false

[dependencies]
chrono = "0.4"
select = "0.6"
url = "2"
reqwest = { version = "0.11", default-features = false, features = ["blocking", "rustls-tls"] }
