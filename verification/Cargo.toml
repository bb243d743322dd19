[package]
name = "pakstak"
version = "0.1.0"
edition = "2021"
publish = false

[dependencies]
anyhow = "=1.0.104"
clap = { version = "=4.6.7", features = ["derive"] }
flate2 = "=1.1.10"
http-auth = { version = "=0.1.10", default-features = false }
libc = "=0.2.191"
ring = "=0.17.14"
rustls = { version = "=0.23.46", default-features = false, features = ["ring", "std", "tls12"] }
serde = { version = "=1.0.229", features = ["derive"] }
serde_json = "=1.0.154"
tar = "=0.4.46"
ureq = { version = "=3.5.1", default-features = false, features = ["rustls", "platform-verifier"] }
