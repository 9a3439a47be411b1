[package]
name = "omadoctor"
version = "0.1.0"
edition = "2021"
publish = false

[dependencies]
serde = { version = "1", features = ["derive"] }
toml = "0.8"
dirs = "5"
reqwest = { version = "0.11", default-features = false, features = ["blocking", "json", "rustls-tls"] }
urlencoding = "2"
zip = { version = "0.6", default-features = false, features = ["deflate"] }
clap = { version = "4", features = ["derive"] }
crossterm = "0.27"
ratatui = "0.26"
