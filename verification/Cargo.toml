[package]
name = "spwn_lsp"
version = "0.1.0"
edition = "2021"
publish = false

[dependencies]
spwn = "*"
tokio = { version = "*", features = ["full"] }
tower-lsp = "*"
