[package]
name = "eska_cli"
version = "0.1.0"
edition = "2021"
publish = false

[dependencies]
clap = { version = "=4.6.7", features = ["derive", "string"] }
crossterm = "=0.29.0"
fluent = "=0.17.0"
gix = { version = "=0.90.0", default-features = false, features = ["sha1"] }
serde = { version = "=1.0.229", features = ["derive"] }
serde_json = "=1.0.154"
sys-locale = "=0.3.2"
