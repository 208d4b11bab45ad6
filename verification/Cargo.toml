[package]
name = "bathpack"
version = "0.1.0"
edition = "2021"
publish = false

[dependencies]
glob = "0.3"
serde = { version = "1", features = ["derive"] }
strfmt = "*"
toml = "0.5"
