[package]
name = "asm_lsp"
version = "0.1.0"
edition = "2021"
publish = false

[dependencies]
anyhow = "*"
home = "*"
log = "*"
reqwest = { version = "*", default-features = false, features = ["blocking"] }
url-escape = "*"
