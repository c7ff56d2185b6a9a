[package]
name = "adl_lsp"
version = "0.1.0"
edition = "2021"
publish = false

[dependencies]
tree-sitter = "*"
tree-sitter-adl = "*"
async-lsp = "*"
lsp-types = "*"
clap = { version = "*", features = ["derive"] }
serde = { version = "*", features = ["derive"] }
serde_json = "*"
tokio = { version = "*", features = ["full"] }
tokio-util = { version = "*", features = ["compat"] }
tower = "*"
tracing = "*"
tracing-subscriber = "*"
