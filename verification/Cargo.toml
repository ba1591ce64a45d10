[package]
name = "jrsls"
version = "0.1.0"
edition = "2021"
publish = false

[dependencies]
anyhow = "1"
dashmap = "6"
ropey = "1"
tokio = { version = "1", features = ["full"] }
tower-lsp = "0.20"
tracing = "0.1"
tracing-subscriber = "0.3"
tree-sitter = "*"
tree-sitter-java = "*"
zip = { version = "*", default-features = false, features = ["deflate"] }
