[package]
name = "verse_lsp"
version = "0.1.0"
edition = "2021"
publish = false

[dependencies]
anyhow = "1"
clap = { version = "4", features = ["derive"] }
enum-iterator = "2"
fxhash = "0.2"
ignore = "0.4"
log = "0.4"
lsp-server = "0.7"
lsp-types = "0.95"
serde = { version = "1", features = ["derive"] }
serde_json = "1"
simple_logger = "5"
