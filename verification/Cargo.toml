[package]
name = "demo-ghostprovider"
version = "0.1.0"
edition = "2021"
publish = false

[dependencies]
anyhow = "1"
crossterm = "0.28"
libc = "0.2"
ratatui = "0.29"
rustls = { version = "0.23", default-features = false, features = ["ring", "std", "tls12"] }
serde = { version = "1", features = ["derive"] }
serde_json = "1"
signal-hook = "0.3"
ureq = { version = "3", default-features = false, features = ["rustls"] }
webpki-roots = "1"
