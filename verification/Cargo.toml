[package]
name = "maxbib"
version = "0.1.0"
edition = "2021"
publish = false

[dependencies]
rff = "=0.3.0"
glob = "=0.3.4"
serde_yaml = "=0.9.34"
termion = "=4.0.6"
tui = { version = "=0.19.0", default-features = false, features = ["termion"] }
