[package]
name = "dvpn"
version = "0.1.0"
edition = "2021"
publish = false

[dependencies]
clap = { version = "4", features = ["derive"] }
derive_more = { version = "*", features = ["from"] }
dns-lookup = "*"
http = "*"
inquire = "*"
reqwest = { version = "*", default-features = false }
rustls-pki-types = { version = "1", features = ["std"] }
tabled = "*"
tokio = { version = "1", features = ["full"] }
tokio-rustls = { version = "*", default-features = false, features = ["ring", "logging", "tls12"] }
webpki-roots = "*"
