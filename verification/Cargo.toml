[package]
name = "code_search_mcp"
version = "0.1.0"
edition = "2021"
publish = false

[dependencies]
anyhow = "=1.0.104"
clap = { version = "=4.6.7", features = ["derive"] }
dashmap = "=6.2.1"
rmcp = { version = "=3.8.0", features = ["server", "macros", "transport-io"] }
serde = { version = "=1.0.229", features = ["derive"] }
serde_json = "=1.0.154"
streaming-iterator = "=0.1.9"
tokio = { version = "=1.54.1", features = ["macros", "rt-multi-thread", "io-std"] }
tracing = "=0.1.44"
tracing-subscriber = { version = "=0.3.23", features = ["env-filter"] }
tree-sitter = "=0.27.1"
tree-sitter-c-sharp = "0.23"
tree-sitter-language = "=0.1.9"
tree-sitter-rust = "=0.24.2"
tree-sitter-typescript = "=0.23.2"
