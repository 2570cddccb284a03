[package]
name = "bal_frontend"
version = "0.1.0"
edition = "2021"
publish = false

[dependencies]
rowan = "0.15"
logos = "*"
serde = { version = "1", features = ["derive"] }
bincode = "1"
toml = "*"
thiserror = "1"
clap = { version = "4", features = ["derive"] }
tower-lsp = "0.20"
wasm-bindgen = "0.2"
